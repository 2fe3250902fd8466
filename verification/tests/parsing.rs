use shell_engine::brace::{tail_check, CommandBrace};
use shell_engine::command::CommandNode;
use shell_engine::elem_command::Command;
use shell_engine::elem_compound_while::CompoundWhile;
use shell_engine::elem_pipeline::Pipeline;
use shell_engine::feeder::Feeder;
use shell_engine::if_command::CommandIf;
use shell_engine::operators::{ControlOperator, RedirectOp};
use shell_engine::redirect::Redirect;
use shell_engine::script::{read_next, Reading, Script};
use shell_engine::text::{chars_of, string_of};

fn s(v: &Vec<char>) -> String {
    v.iter().collect()
}

#[test]
fn chars_and_strings_convert_both_ways() {
    assert_eq!(chars_of("a|b"), vec!['a', '|', 'b']);
    assert_eq!(string_of(&vec!['l', 's', ' ']), "ls ");
}

#[test]
fn consume_takes_prefix() {
    let mut f = Feeder::new("echo hello");
    assert_eq!(f.len(), 10);
    assert_eq!(s(&f.consume(4)), "echo");
    assert_eq!(s(&f.remaining), " hello");
    assert_eq!(f.nth(1), 'h');
}

#[test]
fn consume_more_than_remains_returns_empty() {
    let mut f = Feeder::new("abc");
    assert_eq!(s(&f.consume(4)), "");
    assert_eq!(s(&f.remaining), "abc");
}

#[test]
fn compare_and_starts_with_do_not_consume() {
    let f = Feeder::new("while true");
    assert!(f.compare(0, "while"));
    assert!(f.compare(6, "true"));
    assert!(!f.compare(6, "true "));
    assert!(f.starts_with("wh"));
    assert!(!f.starts_with("do"));
    assert_eq!(f.len(), 10);
}

#[test]
fn snapshot_and_rewind_restore_the_cursor() {
    let mut f = Feeder::with_source("abc", "more\n");
    let snap = f.snapshot();
    f.consume(2);
    assert!(f.acquire_more_input());
    f.rewind(snap);
    assert_eq!(s(&f.remaining), "abc");
    assert_eq!(s(&f.source), "more\n");
}

#[test]
fn acquire_more_input_moves_one_line() {
    let mut f = Feeder::with_source("if true\n", "then echo a\nfi\n");
    assert!(f.acquire_more_input());
    assert_eq!(s(&f.remaining), "if true\nthen echo a\n");
    assert_eq!(s(&f.source), "fi\n");
    assert!(f.acquire_more_input());
    assert_eq!(s(&f.remaining), "if true\nthen echo a\nfi\n");
    assert!(!f.acquire_more_input());
    assert_eq!(s(&f.remaining), "if true\nthen echo a\nfi\n");
}

#[test]
fn supply_feeds_the_line_source() {
    let mut f = Feeder::new("");
    assert!(!f.acquire_more_input());
    f.supply("ls\npwd");
    assert!(f.acquire_more_input());
    assert_eq!(s(&f.remaining), "ls\n");
    assert!(f.acquire_more_input());
    assert_eq!(s(&f.remaining), "ls\npwd");
}

#[test]
fn redirect_parses_operator_and_target() {
    let mut f = Feeder::new(">> out.txt rest");
    let r = Redirect::parse(&mut f).unwrap();
    assert_eq!(r.op, RedirectOp::Append);
    assert_eq!(s(&r.target), "out.txt");
    assert_eq!(s(&r.text), ">> out.txt");
    assert_eq!(s(&f.remaining), " rest");
}

#[test]
fn redirect_knows_every_operator() {
    let cases = [
        (">f", RedirectOp::Output),
        ("<f", RedirectOp::Input),
        ("<>f", RedirectOp::InOut),
        ("&>f", RedirectOp::AndOutput),
        (">&2", RedirectOp::OutputAnd),
        (">>f", RedirectOp::Append),
        ("<<f", RedirectOp::HereDoc),
        ("&>>f", RedirectOp::AndAppend),
        ("<<<f", RedirectOp::HereStr),
    ];
    for (text, op) in cases {
        let mut f = Feeder::new(text);
        let r = Redirect::parse(&mut f).unwrap();
        assert_eq!(r.op, op);
        assert_eq!(s(&r.text), text);
        assert_eq!(f.len(), 0);
    }
}

#[test]
fn redirect_without_target_consumes_nothing() {
    let mut f = Feeder::new("> ;");
    assert!(Redirect::parse(&mut f).is_none());
    assert_eq!(s(&f.remaining), "> ;");
    let mut g = Feeder::new("echo");
    assert!(Redirect::parse(&mut g).is_none());
    assert_eq!(s(&g.remaining), "echo");
}

#[test]
fn simple_command_splits_words() {
    let mut f = Feeder::new("echo hello  world\nnext");
    let c = Command::parse(&mut f).unwrap();
    let args: Vec<String> = c.args.iter().map(s).collect();
    assert_eq!(args, vec!["echo", "hello", "", "world"]);
    assert_eq!(s(&c.text), "echo hello  world\n");
    assert_eq!(c.eoc, ControlOperator::NewLine);
    assert_eq!(s(&f.remaining), "next");
    assert!(c.pid.is_none());
}

#[test]
fn simple_command_collects_redirects() {
    let mut f = Feeder::new("  sort -r < in > out;ls");
    let c = Command::parse(&mut f).unwrap();
    let args: Vec<String> = c.args.iter().map(s).collect();
    assert_eq!(args, vec!["sort", "-r"]);
    assert_eq!(c.fds.redirects.len(), 2);
    assert_eq!(c.fds.redirects[0].op, RedirectOp::Input);
    assert_eq!(s(&c.fds.redirects[0].target), "in");
    assert_eq!(c.fds.redirects[1].op, RedirectOp::Output);
    assert_eq!(s(&c.fds.redirects[1].target), "out");
    assert_eq!(s(&c.fds.redirects[0].text), "< in");
    assert_eq!(s(&c.fds.redirects[1].text), "> out");
    assert_eq!(s(&c.text), "  sort -r < in > out;");
    assert_eq!(c.eoc, ControlOperator::Semicolon);
    assert_eq!(s(&f.remaining), "ls");
}

#[test]
fn simple_command_knows_every_terminator() {
    let cases = [
        ("a;b", ControlOperator::Semicolon, "a;"),
        ("a;;b", ControlOperator::DoubleSemicolon, "a;;"),
        ("a;&b", ControlOperator::SemiAnd, "a;&"),
        ("a;;&b", ControlOperator::SemiSemiAnd, "a;;&"),
        ("a&&b", ControlOperator::And, "a&&"),
        ("a&b", ControlOperator::BgAnd, "a&"),
        ("a||b", ControlOperator::Or, "a||"),
        ("a|b", ControlOperator::Pipe, "a|"),
        ("a\nb", ControlOperator::NewLine, "a\n"),
        ("a", ControlOperator::NoChar, "a"),
    ];
    for (text, op, consumed) in cases {
        let mut f = Feeder::new(text);
        let c = Command::parse(&mut f).unwrap();
        assert_eq!(c.eoc, op);
        assert_eq!(s(&c.text), consumed);
    }
}

#[test]
fn simple_command_refuses_reserved_words() {
    for text in ["then echo", " fi", "done", "}", "do x", "else", "elif", "if", "while", "{"] {
        let mut f = Feeder::new(text);
        assert!(Command::parse(&mut f).is_none());
        assert_eq!(s(&f.remaining), text);
    }
    let mut f = Feeder::new("file x");
    assert!(Command::parse(&mut f).is_some());
}

#[test]
fn simple_command_fails_on_empty_input() {
    let mut f = Feeder::new("   ");
    assert!(Command::parse(&mut f).is_none());
    assert_eq!(s(&f.remaining), "   ");
    let mut g = Feeder::new("; ls");
    assert!(Command::parse(&mut g).is_none());
    assert_eq!(s(&g.remaining), "; ls");
}

#[test]
fn pipeline_chains_commands() {
    let mut f = Feeder::new("cat f | grep x | wc -l; echo done");
    let p = Pipeline::parse(&mut f).unwrap();
    assert_eq!(p.commands.len(), 3);
    assert_eq!(s(&p.text), "cat f | grep x | wc -l;");
    assert_eq!(p.commands[0].get_text(), "cat f |");
    assert_eq!(p.commands[1].get_text(), " grep x |");
    assert_eq!(p.commands[2].get_text(), " wc -l;");
    assert_eq!(p.last_eoc(), ControlOperator::Semicolon);
    assert_eq!(s(&f.remaining), " echo done");
    assert!(!p.expansion);
}

#[test]
fn pipeline_text_is_the_commands_text() {
    let mut f = Feeder::new("a 1|b 2 > x|c\n");
    let p = Pipeline::parse(&mut f).unwrap();
    let joined: String = p.commands.iter().map(|c| c.get_text()).collect();
    assert_eq!(joined, s(&p.text));
    assert_eq!(joined, "a 1|b 2 > x|c\n");
}

#[test]
fn pipeline_fails_without_a_command() {
    let mut f = Feeder::new("| ls");
    assert!(Pipeline::parse(&mut f).is_none());
    assert_eq!(s(&f.remaining), "| ls");
}

#[test]
fn script_reads_every_pipeline() {
    let mut f = Feeder::new("ls; pwd && echo a | cat\nfi");
    let sc = Script::parse(&mut f).unwrap();
    assert_eq!(sc.list.len(), 3);
    assert_eq!(s(&sc.text), "ls; pwd && echo a | cat\n");
    let joined: String = sc.list.iter().map(|p| s(&p.text)).collect();
    assert_eq!(joined, s(&sc.text));
    assert_eq!(s(&f.remaining), "fi");
}

#[test]
fn if_command_round_trip() {
    let text = "if false; then echo a; else echo b; fi\n";
    let mut f = Feeder::new(text);
    let c = CommandIf::parse(&mut f).unwrap();
    assert_eq!(s(&c.text), text);
    assert_eq!(c.ifthen.len(), 1);
    assert_eq!(s(&c.ifthen[0].0.text), " false;");
    assert_eq!(s(&c.ifthen[0].1.text), " echo a;");
    assert_eq!(s(&c.else_do.as_ref().unwrap().text), " echo b;");
    assert_eq!(c.eoc, ControlOperator::NewLine);
    assert_eq!(f.len(), 0);
}

#[test]
fn if_command_with_elif() {
    let text = "if a; then b; elif c; then d; elif e; then f; fi > log; next";
    let mut f = Feeder::new(text);
    let c = CommandIf::parse(&mut f).unwrap();
    assert_eq!(c.ifthen.len(), 3);
    assert!(c.else_do.is_none());
    assert_eq!(s(&c.ifthen[1].0.text), " c;");
    assert_eq!(s(&c.ifthen[2].1.text), " f;");
    assert_eq!(c.fds.redirects.len(), 1);
    assert_eq!(s(&c.fds.redirects[0].target), "log");
    assert_eq!(s(&c.text), "if a; then b; elif c; then d; elif e; then f; fi > log;");
    assert_eq!(s(&f.remaining), " next");
}

#[test]
fn if_command_acquires_lines() {
    let mut f = Feeder::with_source("if true\n", "then\n  echo a\n  echo b\nfi\nls\n");
    let c = CommandIf::parse(&mut f).unwrap();
    assert_eq!(s(&c.text), "if true\nthen\n  echo a\n  echo b\nfi\n");
    assert_eq!(c.ifthen[0].1.list.len(), 2);
    assert_eq!(s(&f.remaining), "");
    assert_eq!(s(&f.source), "ls\n");
}

#[test]
fn if_command_unfinished_restores_cursor() {
    let mut f = Feeder::with_source("if true\n", "then echo a\n");
    assert!(CommandIf::parse(&mut f).is_none());
    assert_eq!(s(&f.remaining), "if true\n");
    assert_eq!(s(&f.source), "then echo a\n");
}

#[test]
fn if_command_needs_the_whole_word() {
    let mut f = Feeder::new("ifconfig eth0\n");
    assert!(CommandIf::parse(&mut f).is_none());
    assert_eq!(s(&f.remaining), "ifconfig eth0\n");
    let node = CommandNode::parse(&mut f).unwrap();
    assert!(matches!(node, CommandNode::Simple(_)));
}

#[test]
fn while_command_round_trip() {
    let text = "while test -f x; do sleep 1; done < in\n";
    let mut f = Feeder::new(text);
    let c = CompoundWhile::parse(&mut f).unwrap();
    assert_eq!(s(&c.text), text);
    let (cond, body) = c.conddo.as_ref().unwrap();
    assert_eq!(s(&cond.text), " test -f x;");
    assert_eq!(s(&body.text), " sleep 1;");
    assert_eq!(c.fds.redirects.len(), 1);
    assert_eq!(c.fds.redirects[0].op, RedirectOp::Input);
    assert_eq!(c.eoc, ControlOperator::NewLine);
}

#[test]
fn while_command_acquires_lines() {
    let mut f = Feeder::with_source("while true\n", "do\necho a\necho b\ndone\n");
    let c = CompoundWhile::parse(&mut f).unwrap();
    assert_eq!(s(&c.text), "while true\ndo\necho a\necho b\ndone\n");
    assert_eq!(c.conddo.as_ref().unwrap().1.list.len(), 2);
}

#[test]
fn while_command_without_done_restores_cursor() {
    let mut f = Feeder::with_source("while true; do ls;", "pwd\n");
    assert!(CompoundWhile::parse(&mut f).is_none());
    assert_eq!(s(&f.remaining), "while true; do ls;");
    assert_eq!(s(&f.source), "pwd\n");
}

#[test]
fn brace_group_round_trip() {
    let text = "{ cd /tmp; ls; } > out; echo";
    let mut f = Feeder::new(text);
    let c = CommandBrace::parse(&mut f).unwrap();
    assert_eq!(s(&c.text), "{ cd /tmp; ls; } > out;");
    assert_eq!(s(&c.script.text), " cd /tmp; ls;");
    assert_eq!(c.script.list.len(), 2);
    assert_eq!(c.fds.redirects.len(), 1);
    assert_eq!(s(&f.remaining), " echo");
}

#[test]
fn brace_group_needs_a_boundary() {
    let mut f = Feeder::new("{ ls | }");
    assert!(CommandBrace::parse(&mut f).is_none());
    assert_eq!(s(&f.remaining), "{ ls | }");
}

#[test]
fn brace_group_acquires_lines() {
    let mut f = Feeder::with_source("{\n", "ls\n}\npwd\n");
    let c = CommandBrace::parse(&mut f).unwrap();
    assert_eq!(s(&c.text), "{\nls\n}\n");
    assert_eq!(s(&f.source), "pwd\n");
}

#[test]
fn brace_group_unclosed_restores_cursor() {
    let mut f = Feeder::with_source("{ ls;", " pwd;\n");
    assert!(CommandBrace::parse(&mut f).is_none());
    assert_eq!(s(&f.remaining), "{ ls;");
    assert_eq!(s(&f.source), " pwd;\n");
}

#[test]
fn tail_check_accepts_statement_boundaries() {
    assert!(tail_check(&" ls;".to_string()));
    assert!(tail_check(&" ls;   ".to_string()));
    assert!(tail_check(&"ls\n".to_string()));
    assert!(tail_check(&"ls\t ".to_string()));
    assert!(!tail_check(&" ls ".to_string()));
    assert!(!tail_check(&"".to_string()));
    assert!(!tail_check(&"   ".to_string()));
}

#[test]
fn nested_compound_commands() {
    let text = "while a; do if b; then { c; d; }; fi; done\n";
    let mut f = Feeder::new(text);
    let node = CommandNode::parse(&mut f).unwrap();
    assert_eq!(node.get_text(), text);
    match node {
        CommandNode::While(w) => {
            let (_, body) = w.conddo.unwrap();
            assert_eq!(body.list.len(), 1);
            match &body.list[0].commands[0] {
                CommandNode::If(i) => {
                    assert_eq!(s(&i.ifthen[0].1.text), " { c; d; };");
                }
                _ => panic!("an if command was expected"),
            }
        }
        _ => panic!("a while command was expected"),
    }
}

#[test]
fn round_trip_over_a_script() {
    let text = "a | b > f\nif c; then d; fi && { e; } || while g; do h; done; i";
    let mut f = Feeder::new(text);
    let sc = Script::parse(&mut f).unwrap();
    assert_eq!(s(&sc.text) + &s(&f.remaining), text);
    assert_eq!(s(&sc.text), text);
    assert_eq!(sc.list.len(), 5);
}

#[test]
fn read_next_walks_the_input() {
    let mut f = Feeder::with_source("", "ls\nif a\nthen b\nfi\n; x\n");
    match read_next(&mut f) {
        Reading::Script(sc) => assert_eq!(s(&sc.text), "ls\n"),
        _ => panic!("a script was expected"),
    }
    match read_next(&mut f) {
        Reading::Script(sc) => assert_eq!(s(&sc.text), "if a\nthen b\nfi\n"),
        _ => panic!("a script was expected"),
    }
    match read_next(&mut f) {
        Reading::Rejected(text) => assert_eq!(s(&text), "; x\n"),
        _ => panic!("a rejection was expected"),
    }
    assert!(matches!(read_next(&mut f), Reading::Exhausted));
    assert!(matches!(read_next(&mut f), Reading::Exhausted));
}

#[test]
fn read_next_goes_on_in_the_buffer() {
    let mut f = Feeder::with_source("a; b", "c\n");
    match read_next(&mut f) {
        Reading::Script(sc) => assert_eq!(s(&sc.text), "a; b"),
        _ => panic!("a script was expected"),
    }
    assert_eq!(s(&f.source), "c\n");
    let mut g = Feeder::with_source("fi", "c\n");
    match read_next(&mut g) {
        Reading::Rejected(text) => assert_eq!(s(&text), "fi"),
        _ => panic!("a rejection was expected"),
    }
    assert_eq!(s(&g.source), "c\n");
}

#[test]
fn simple_command_keeps_empty_words() {
    let mut f = Feeder::new("a  b");
    let c = Command::parse(&mut f).unwrap();
    let args: Vec<String> = c.args.iter().map(s).collect();
    assert_eq!(args, vec!["a", "", "b"]);
    let expected: Vec<String> = "a  b".trim_end().split(' ').map(|w| w.to_string()).collect();
    assert_eq!(args, expected);
}

#[test]
fn simple_command_takes_a_tab_into_the_word() {
    let mut f = Feeder::new("a\tb c \t \nrest");
    let c = Command::parse(&mut f).unwrap();
    let args: Vec<String> = c.args.iter().map(s).collect();
    assert_eq!(args, vec!["a\tb", "c"]);
    assert_eq!(s(&c.text), "a\tb c \t \n");
    assert_eq!(s(&f.remaining), "rest");
}

#[test]
fn simple_command_ends_behind_its_redirections() {
    let mut f = Feeder::new("sort < in -r; ls");
    let c = Command::parse(&mut f).unwrap();
    let args: Vec<String> = c.args.iter().map(s).collect();
    assert_eq!(args, vec!["sort"]);
    assert_eq!(c.fds.redirects.len(), 1);
    assert_eq!(s(&c.text), "sort < in ");
    assert_eq!(c.eoc, ControlOperator::NoChar);
    assert_eq!(s(&f.remaining), "-r; ls");
}

#[test]
fn failed_pair_leaves_the_command_as_it_was() {
    let mut f = Feeder::new(" a; b; fi");
    let mut c = CommandIf::new();
    c.text = "if".chars().collect();
    assert!(!CommandIf::parse_if_then_pair(&mut f, &mut c));
    assert!(c.ifthen.is_empty());
    assert_eq!(s(&c.text), "if");
    assert_eq!(s(&f.remaining), " a; b; fi");
    let mut g = Feeder::new(" a; then b; elif c; fi");
    let mut d = CommandIf::new();
    assert!(!CommandIf::parse_pairs(&mut g, &mut d));
    assert!(d.ifthen.is_empty());
    assert!(d.text.is_empty());
    assert_eq!(s(&g.remaining), " a; then b; elif c; fi");
    let mut h = Feeder::new(" a; b; done");
    let mut w = CompoundWhile::new();
    assert!(!CompoundWhile::parse_cond_do_pair(&mut h, &mut w));
    assert!(w.conddo.is_none());
    assert!(w.text.is_empty());
    assert_eq!(s(&h.remaining), " a; b; done");
}

#[test]
fn read_next_waits_for_an_unfinished_command() {
    let mut f = Feeder::new("if a\n");
    assert!(matches!(read_next(&mut f), Reading::Unfinished));
    assert_eq!(s(&f.remaining), "if a\n");
    f.supply("then b\n");
    assert!(matches!(read_next(&mut f), Reading::Unfinished));
    f.supply("fi\n");
    match read_next(&mut f) {
        Reading::Script(sc) => assert_eq!(s(&sc.text), "if a\nthen b\nfi\n"),
        _ => panic!("a script was expected"),
    }
    assert!(matches!(read_next(&mut f), Reading::Exhausted));
}

#[test]
fn parse_words_reads_up_to_an_operator() {
    let mut f = Feeder::new("  ls  -l  > out");
    let (text, args) = Command::parse_words(&mut f).unwrap();
    assert_eq!(s(&text), "  ls  -l  ");
    assert_eq!(args.iter().map(s).collect::<Vec<_>>(), vec!["ls", "", "-l"]);
    assert_eq!(s(&f.remaining), "> out");
    let mut g = Feeder::new(" fi x");
    assert!(Command::parse_words(&mut g).is_none());
    assert_eq!(s(&g.remaining), " fi x");
}
