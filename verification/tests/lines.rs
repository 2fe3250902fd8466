use shell_engine::parser::{command_with_args, split, top_level_element, trim};
use shell_engine::text::chars_of;

fn words(line: &str) -> Vec<String> {
    let c = command_with_args(line.to_string()).unwrap();
    c.tree.elems.iter().map(|t| t.text.clone()).collect()
}

#[test]
fn command_with_args_splits_on_spaces() {
    let c = command_with_args("ls -l /tmp\n".to_string()).unwrap();
    assert_eq!(c.tree.text, "ls -l /tmp\n");
    assert_eq!(c.tree.text_pos, 0);
    assert_eq!(c.tree.elems.len(), 3);
    assert_eq!(c.tree.elems[0].text, "ls");
    assert_eq!(c.tree.elems[1].text, "-l");
    assert_eq!(c.tree.elems[2].text, "/tmp");
    assert!(c.tree.elems.iter().all(|t| t.elems.is_empty() && t.text_pos == 0));
}

#[test]
fn command_with_args_keeps_empty_pieces() {
    assert_eq!(words("a  b"), vec!["a", "", "b"]);
    assert_eq!(words(""), vec![""]);
    assert_eq!(words("   "), vec![""]);
    assert_eq!(words(" \t echo\tx \n"), vec!["echo\tx"]);
}

#[test]
fn command_with_args_agrees_with_std() {
    for line in ["echo a b", "  x ", "\u{3000}wide\u{a0}", "a   b  c ", "\n", "tab\there now"] {
        let expected: Vec<String> = line.trim().split(" ").map(|x| x.to_string()).collect();
        assert_eq!(words(line), expected);
    }
}

#[test]
fn top_level_element_reads_a_command() {
    let c = top_level_element("echo hello".to_string()).unwrap();
    assert_eq!(c.tree.text, "echo hello");
    let got: Vec<&str> = c.tree.elems.iter().map(|t| t.text.as_str()).collect();
    assert_eq!(got, vec!["echo", "hello"]);
}

#[test]
fn trim_and_split_work_on_characters() {
    let t: String = trim(&chars_of("\r\n  a b \t")).iter().collect();
    assert_eq!(t, "a b");
    let pieces: Vec<String> = split(&chars_of(" a b ")).iter().map(|p| p.iter().collect()).collect();
    assert_eq!(pieces, vec!["", "a", "b", ""]);
}
