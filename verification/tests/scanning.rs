use shell_engine::brace::boundary_tail;
use shell_engine::command::CommandNode;
use shell_engine::elem_command::reserved_word;
use shell_engine::feeder::Feeder;
use shell_engine::if_command::CommandIf;
use shell_engine::items::parse_redirects;
use shell_engine::operators::{ControlOperator, RedirectOp};
use shell_engine::elem_pipeline::Pipeline;
use shell_engine::redirect::Redirect;
use shell_engine::scanner::{char_in_class, peek, scan_control, scan_redirect_op, scanner_while, CharClass};
use shell_engine::script::{closes_here, parse_block, BlockEnd, Script};
use shell_engine::decimal::{digit_char, digits_of};
use shell_engine::shell_core::{same_chars, ShellCore};
use shell_engine::text::{append_chars, chars_of, has_at, slice_of, word_is};

fn s(v: &Vec<char>) -> String {
    v.iter().collect()
}

#[test]
fn scanner_while_counts_a_run() {
    let v = chars_of("  \t\nab cd>");
    assert_eq!(scanner_while(&v, 0, CharClass::Blank), 3);
    assert_eq!(scanner_while(&v, 0, CharClass::Space), 4);
    assert_eq!(scanner_while(&v, 4, CharClass::Word), 2);
    assert_eq!(scanner_while(&v, 7, CharClass::Word), 2);
    assert_eq!(scanner_while(&v, 4, CharClass::Blank), 0);
    assert_eq!(scanner_while(&v, 10, CharClass::Word), 0);
    assert_eq!(scanner_while(&v, 99, CharClass::Word), 0);
}

#[test]
fn character_classes() {
    for c in [';', '&', '|', '<', '>', ' ', '\t', '\n'] {
        assert!(!char_in_class(CharClass::Word, c));
    }
    for c in ['a', '{', '}', '/', '-', '$', '\0'] {
        assert!(char_in_class(CharClass::Word, c));
    }
    assert!(char_in_class(CharClass::Span, ' ') && char_in_class(CharClass::Span, '\t'));
    assert!(char_in_class(CharClass::Span, 'a') && !char_in_class(CharClass::Span, ';'));
    assert!(!char_in_class(CharClass::Span, '\n'));
    assert!(char_in_class(CharClass::Space, '\n'));
    assert!(!char_in_class(CharClass::Blank, '\n'));
}

#[test]
fn peek_is_total() {
    let v = chars_of("ab");
    assert_eq!(peek(&v, 1), 'b');
    assert_eq!(peek(&v, 2), '\0');
}

#[test]
fn scan_control_takes_the_longest() {
    let v = chars_of("a;;&b&>c|&");
    assert_eq!(scan_control(&v, 1), (ControlOperator::SemiSemiAnd, 3));
    assert_eq!(scan_control(&v, 2), (ControlOperator::SemiAnd, 2));
    assert_eq!(scan_control(&v, 3), (ControlOperator::BgAnd, 1));
    assert_eq!(scan_control(&v, 5), (ControlOperator::NoChar, 0));
    assert_eq!(scan_control(&v, 8), (ControlOperator::Pipe, 1));
    assert_eq!(scan_control(&v, 9), (ControlOperator::BgAnd, 1));
    assert_eq!(scan_control(&v, 10), (ControlOperator::NoChar, 0));
    assert_eq!(scan_control(&v, 0), (ControlOperator::NoChar, 0));
}

#[test]
fn scan_redirect_op_takes_the_longest() {
    let v = chars_of("&>>x<<<y>&z&");
    assert_eq!(scan_redirect_op(&v, 0), (RedirectOp::AndAppend, 3));
    assert_eq!(scan_redirect_op(&v, 1), (RedirectOp::Append, 2));
    assert_eq!(scan_redirect_op(&v, 4), (RedirectOp::HereStr, 3));
    assert_eq!(scan_redirect_op(&v, 5), (RedirectOp::HereDoc, 2));
    assert_eq!(scan_redirect_op(&v, 6), (RedirectOp::Input, 1));
    assert_eq!(scan_redirect_op(&v, 8), (RedirectOp::OutputAnd, 2));
    assert_eq!(scan_redirect_op(&v, 11), (RedirectOp::NoRedirect, 0));
    assert_eq!(scan_redirect_op(&v, 3), (RedirectOp::NoRedirect, 0));
}

#[test]
fn text_helpers() {
    let v = chars_of("while true");
    assert!(has_at(&v, 6, "true"));
    assert!(!has_at(&v, 7, "true"));
    assert!(has_at(&v, 10, ""));
    assert!(!has_at(&v, 11, ""));
    assert!(word_is(&v, 0, 5, "while"));
    assert!(!word_is(&v, 0, 4, "while"));
    assert_eq!(s(&slice_of(&v, 6, 10)), "true");
    let mut head = chars_of("ab");
    append_chars(&mut head, &chars_of("cd"));
    assert_eq!(s(&head), "abcd");
    assert!(reserved_word(&v, 0, 5));
    assert!(!reserved_word(&v, 6, 10));
}

#[test]
fn at_word_and_accept_need_the_whole_word() {
    let mut f = Feeder::new("  done; donex");
    assert!(f.at_word(2, "done"));
    assert!(!f.at_word(2, "do"));
    assert!(!f.at_word(0, "done"));
    assert!(!f.at_word(99, "done"));
    assert!(f.accept(2, "do").is_none());
    assert_eq!(s(&f.accept(2, "done").unwrap()), "  done");
    assert_eq!(s(&f.remaining), "; donex");
    assert!(f.accept(2, "done").is_none());
    assert_eq!(s(&f.remaining), "; donex");
}

#[test]
fn parse_redirects_reads_every_redirection() {
    let mut f = Feeder::new(" >x \t <y ;rest");
    let mut text = chars_of("cmd");
    let mut redirects: Vec<Redirect> = Vec::new();
    parse_redirects(&mut f, &mut text, &mut redirects);
    assert_eq!(s(&text), "cmd >x \t <y ");
    assert_eq!(redirects.len(), 2);
    assert_eq!(s(&redirects[1].text), "<y");
    assert_eq!(s(&f.remaining), ";rest");
}

#[test]
fn parse_redirects_stops_at_a_word() {
    let mut f = Feeder::new(" >x  b <y");
    let mut text: Vec<char> = Vec::new();
    let mut redirects: Vec<Redirect> = Vec::new();
    parse_redirects(&mut f, &mut text, &mut redirects);
    assert_eq!(s(&text), " >x  ");
    assert_eq!(redirects.len(), 1);
    assert_eq!(s(&f.remaining), "b <y");
}

#[test]
fn boundary_tail_scans_from_the_end() {
    assert!(boundary_tail(&chars_of("a;  ")));
    assert!(boundary_tail(&chars_of("a\t")));
    assert!(!boundary_tail(&chars_of("a; b")));
    assert!(!boundary_tail(&chars_of("")));
}

#[test]
fn parse_block_stops_before_its_closer() {
    let mut f = Feeder::new(" ls; pwd\n  done; x");
    let (script, ws) = parse_block(&mut f, BlockEnd::Done).unwrap();
    assert_eq!(s(&script.text), " ls; pwd\n");
    assert_eq!(s(&ws), "  ");
    assert_eq!(s(&f.remaining), "done; x");
    assert!(closes_here(&f, BlockEnd::Done));
    assert!(!closes_here(&f, BlockEnd::Do));
}

#[test]
fn parse_block_takes_the_fewest_lines() {
    let mut f = Feeder::with_source("", "a\nb\nfi\nc\nfi\n");
    let (script, _) = parse_block(&mut f, BlockEnd::Fi).unwrap();
    assert_eq!(s(&script.text), "a\nb\n");
    assert_eq!(s(&f.remaining), "fi\n");
    assert_eq!(s(&f.source), "c\nfi\n");
}

#[test]
fn parse_block_without_closer_restores_cursor() {
    let mut f = Feeder::with_source(" ls;", " pwd;\n");
    assert!(parse_block(&mut f, BlockEnd::Then).is_none());
    assert_eq!(s(&f.remaining), " ls;");
    assert_eq!(s(&f.source), " pwd;\n");
    let mut g = Feeder::new("then");
    assert!(parse_block(&mut g, BlockEnd::Then).is_none());
    assert_eq!(s(&g.remaining), "then");
}

#[test]
fn inner_command_acquires_its_own_lines() {
    let mut f = Feeder::with_source("if a\n", "then\nwhile b\ndo\nc\ndone\nfi\nrest\n");
    let c = CommandIf::parse(&mut f).unwrap();
    assert_eq!(s(&c.text), "if a\nthen\nwhile b\ndo\nc\ndone\nfi\n");
    assert!(matches!(c.ifthen[0].1.list[0].commands[0], CommandNode::While(_)));
    assert_eq!(s(&f.source), "rest\n");
}

#[test]
fn pipeline_may_end_on_a_pipe() {
    let mut f = Feeder::new("ls |; wc");
    let p = Pipeline::parse(&mut f).unwrap();
    assert_eq!(p.commands.len(), 1);
    assert_eq!(p.last_eoc(), ControlOperator::Pipe);
    assert_eq!(s(&f.remaining), "; wc");
}

#[test]
fn script_stops_without_an_operator() {
    let mut f = Feeder::new("ls > ");
    let sc = Script::parse(&mut f).unwrap();
    assert_eq!(s(&sc.text), "ls ");
    assert_eq!(s(&f.remaining), "> ");
    let mut g = Feeder::new("");
    assert!(Script::parse(&mut g).is_none());
}

#[test]
fn digits_and_equal_texts() {
    assert_eq!(digit_char(0), '0');
    assert_eq!(digit_char(9), '9');
    assert_eq!(s(&digits_of(0)), "0");
    assert_eq!(s(&digits_of(90210)), "90210");
    assert!(same_chars(&chars_of("abc"), &chars_of("abc")));
    assert!(!same_chars(&chars_of("abc"), &chars_of("abd")));
    assert!(!same_chars(&chars_of("abc"), &chars_of("ab")));
    let mut core = ShellCore::new();
    core.set_chars(chars_of("x"), chars_of("y"));
    assert_eq!(core.get("x"), Some("y".to_string()));
}
