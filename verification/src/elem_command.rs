//! The simple command: a list of words, with its redirections and the
//! operator that ends it.

use vstd::prelude::*;
use nix::unistd::Pid;
use crate::feeder::Feeder;
use crate::file_descs::FileDescs;
use crate::items::{
    items_len,
    items_redirects,
    lemma_items_len_bound,
    lemma_items_prefix,
    parse_redirects,
    redirects_view,
    words_view,
};
use crate::operators::{control_text, ControlOperator, RedirectOp};
use crate::parser::{lemma_split_spaces_nonempty, split, split_spaces, trim_end, trimmed_end};
use crate::scanner::{
    control_at,
    lemma_run_len,
    lemma_run_len_prefix,
    lemma_word_in_span,
    run_len,
    scan_control,
    scanner_while,
    CharClass,
};
use crate::text::{append_chars, slice_of, string_of, word_is};

verus! {

/// The words that open or close a compound command. None of them can be the
/// name of a simple command.
pub open spec fn is_reserved(w: Seq<char>) -> bool {
    w == "if"@ || w == "then"@ || w == "elif"@ || w == "else"@ || w == "fi"@ || w == "while"@
        || w == "do"@ || w == "done"@ || w == "{"@ || w == "}"@
}

pub fn reserved_word(v: &Vec<char>, from: usize, to: usize) -> (b: bool)
    requires
        from <= to <= v@.len(),
    ensures
        b == is_reserved(v@.subrange(from as int, to as int)),
{
    word_is(v, from, to, "if") || word_is(v, from, to, "then") || word_is(v, from, to, "elif")
        || word_is(v, from, to, "else") || word_is(v, from, to, "fi") || word_is(
        v,
        from,
        to,
        "while",
    ) || word_is(v, from, to, "do") || word_is(v, from, to, "done") || word_is(v, from, to, "{")
        || word_is(v, from, to, "}")
}

/// Where the name of a simple command at the start of `s` begins: behind the
/// white space that leads it.
pub open spec fn command_name_start(s: Seq<char>) -> nat {
    run_len(s, 0, CharClass::Space)
}

/// Where the words of the command at the start of `s` end: before the first
/// character behind the name that is a line break or belongs to an operator.
pub open spec fn command_words_end(s: Seq<char>) -> nat {
    command_name_start(s) + run_len(s, command_name_start(s) as int, CharClass::Span)
}

/// The words of the command at the start of `s`: the text from the name to
/// the end of the words, without the white space at its end, split at every
/// single space. Two spaces in a row have an empty word between them, and a
/// tab is part of a word.
pub open spec fn command_words(s: Seq<char>) -> Seq<Seq<char>> {
    split_spaces(
        trimmed_end(s.subrange(command_name_start(s) as int, command_words_end(s) as int)),
    )
}

/// Length of the white space and the words at the start of `s`; 0 where no
/// word stands there or the first word is reserved.
pub open spec fn command_head_len(s: Seq<char>) -> nat {
    let lead = command_name_start(s);
    let w = run_len(s, lead as int, CharClass::Word);
    if w == 0 || lead + w > s.len() || is_reserved(s.subrange(lead as int, (lead + w) as int)) {
        0
    } else {
        command_words_end(s)
    }
}

/// Length of words and redirections of the simple command at the start of `s`.
pub open spec fn command_body_len(s: Seq<char>) -> nat {
    let h = command_head_len(s);
    h + items_len(s.skip(h as int))
}

/// Length of the simple command at the start of `s`, the operator that ends it
/// included; 0 where `s` starts with none.
pub open spec fn command_len(s: Seq<char>) -> nat {
    if command_head_len(s) == 0 {
        0
    } else {
        command_body_len(s) + control_at(s.skip(command_body_len(s) as int), 0).1
    }
}

/// The command at the start of `s` is the command at the start of its own
/// text, and all of that text: words, redirections and closing operator are
/// the same in both.
pub proof fn lemma_command_in_own_text(s: Seq<char>, m: int)
    requires
        command_head_len(s) > 0,
        m == command_len(s),
        m <= s.len(),
    ensures
        command_words_end(s.subrange(0, m)) == command_words_end(s),
        command_words(s.subrange(0, m)) == command_words(s),
        items_redirects(s.subrange(0, m).skip(command_words_end(s) as int)) == items_redirects(
            s.skip(command_head_len(s) as int),
        ),
        command_head_len(s.subrange(0, m)) == command_head_len(s),
        command_body_len(s.subrange(0, m)) == command_body_len(s),
        control_at(s.subrange(0, m).skip(command_body_len(s) as int), 0) == control_at(
            s.skip(command_body_len(s) as int),
            0,
        ),
        command_len(s.subrange(0, m)) == m,
{
    lemma_command_head_in_own_text(s, m);
    lemma_control_in_own_text(s.skip(command_body_len(s) as int), m - command_body_len(s));
    assert(s.subrange(0, m).skip(command_body_len(s) as int) =~= s.skip(
        command_body_len(s) as int,
    ).subrange(0, m - command_body_len(s)));
}

/// A control operator at the start of `s` is the same in the characters that
/// it is made of alone.
pub proof fn lemma_control_in_own_text(s: Seq<char>, n: int)
    requires
        n == control_at(s, 0).1,
        n <= s.len(),
    ensures
        control_at(s.subrange(0, n), 0) == control_at(s, 0),
{
    let p = s.subrange(0, n);
    if n > 0 {
        assert(p[0] == s[0]);
    }
    if n > 1 {
        assert(p[1] == s[1]);
    }
    if n > 2 {
        assert(p[2] == s[2]);
    }
}

/// Words and redirections of the command at the start of `s` are those of
/// the first `m` characters of `s` alone, where the command's body ends
/// inside them.
pub proof fn lemma_command_head_in_own_text(s: Seq<char>, m: int)
    requires
        command_head_len(s) > 0,
        command_body_len(s) <= m <= s.len(),
    ensures
        command_words_end(s.subrange(0, m)) == command_words_end(s),
        command_words(s.subrange(0, m)) == command_words(s),
        items_redirects(s.subrange(0, m).skip(command_words_end(s) as int)) == items_redirects(
            s.skip(command_head_len(s) as int),
        ),
        command_head_len(s.subrange(0, m)) == command_head_len(s),
        command_body_len(s.subrange(0, m)) == command_body_len(s),
{
    let w = run_len(s, command_name_start(s) as int, CharClass::Word) as int;
    lemma_run_len(s, command_name_start(s) as int, CharClass::Word);
    lemma_word_in_span(s, command_name_start(s) as int);
    lemma_items_len_bound(s.skip(command_words_end(s) as int));
    lemma_run_len_prefix(s, m, command_name_start(s) as int, CharClass::Word);
    assert(s.subrange(0, m).subrange(command_name_start(s) as int, command_name_start(s) + w)
        =~= s.subrange(command_name_start(s) as int, command_name_start(s) + w));
    let t = s.subrange(0, m);
    let lead = command_name_start(s) as int;
    let h = command_words_end(s) as int;
    lemma_run_len(s, 0, CharClass::Space);
    lemma_run_len(s, lead, CharClass::Span);
    lemma_run_len_prefix(s, m, 0, CharClass::Space);
    lemma_run_len_prefix(s, m, lead, CharClass::Span);
    assert(t.subrange(lead, h) =~= s.subrange(lead, h));
    lemma_items_prefix(s.skip(h), m - h);
    assert(t.skip(h) =~= s.skip(h).subrange(0, m - h));
}

pub struct Command {
    pub text: Vec<char>,
    pub args: Vec<Vec<char>>,
    pub fds: FileDescs,
    pub pid: Option<Pid>,
    pub group_leader: bool,
    /// The operator that ended the command, `NoChar` where none did.
    pub eoc: ControlOperator,
}

impl Command {
    /// The command is what its own text holds, and the text holds no more:
    /// the words are `command_words` of the text, the redirections those that
    /// follow the words in it, each with its operator, its target and its
    /// raw text, and the operator is the one that ends the text.
    pub open spec fn holds_own_text(&self) -> bool {
        let t = self.text@;
        &&& self.args@.len() >= 1
        &&& words_view(self.args@) == command_words(t)
        &&& redirects_view(self.fds.redirects@) == items_redirects(
            t.skip(command_words_end(t) as int),
        )
        &&& command_len(t) == t.len()
        &&& self.eoc == control_at(t.skip(command_body_len(t) as int), 0).0
    }

    /// The command is what stands at the start of `s`: its text is the command
    /// there, its words and redirections are those that stand there, which
    /// are those of its own text, its operator is the one that ends the
    /// command, and it has no process and no pipe end yet.
    pub open spec fn reads(&self, s: Seq<char>) -> bool {
        let q = command_body_len(s) as int;
        &&& command_head_len(s) > 0
        &&& command_len(s) <= s.len()
        &&& self.text@ == s.subrange(0, command_len(s) as int)
        &&& self.text@.len() > 0
        &&& self.holds_own_text()
        &&& words_view(self.args@) == command_words(s)
        &&& redirects_view(self.fds.redirects@) == items_redirects(
            s.skip(command_head_len(s) as int),
        )
        &&& self.eoc == control_at(s.skip(q), 0).0
        &&& self.pid is None
        &&& !self.group_leader
        &&& self.fds.pipein == -1 && self.fds.pipeout == -1 && self.fds.prevpipein == -1
    }

    /// Reads the white space and the words at the start of the buffer. The
    /// first word must be a command name; else nothing is consumed.
    pub fn parse_words(feeder: &mut Feeder) -> (r: Option<(Vec<char>, Vec<Vec<char>>)>)
        ensures
            final(feeder).src() == old(feeder).src(),
            r is Some <==> command_head_len(old(feeder).rem()) > 0,
            r is None ==> final(feeder).rem() == old(feeder).rem(),
            r matches Some(found) ==> {
                let s = old(feeder).rem();
                &&& command_head_len(s) <= s.len()
                &&& command_head_len(s) == command_words_end(s)
                &&& found.0@ == s.subrange(0, command_head_len(s) as int)
                &&& final(feeder).rem() == s.skip(command_head_len(s) as int)
                &&& found.1@.len() >= 1
                &&& words_view(found.1@) == command_words(s)
            },
    {
        let ghost s = feeder.rem();
        let total: usize = feeder.len();
        let lead: usize = scanner_while(&feeder.remaining, 0, CharClass::Space);
        let w: usize = scanner_while(&feeder.remaining, lead, CharClass::Word);
        proof {
            lemma_run_len(s, 0, CharClass::Space);
            lemma_run_len(s, lead as int, CharClass::Word);
            lemma_run_len(s, lead as int, CharClass::Span);
        }
        assert(lead + w <= total);
        if w == 0 || reserved_word(&feeder.remaining, lead, lead + w) {
            return None;
        }
        let span: usize = scanner_while(&feeder.remaining, lead, CharClass::Span);
        assert(span >= 1);
        assert(lead + span <= total);
        let words = slice_of(&feeder.remaining, lead, lead + span);
        let args = split(&trim_end(&words));
        proof {
            lemma_split_spaces_nonempty(trimmed_end(words@));
            assert(words_view(args@).len() == args@.len());
        }
        let text = feeder.consume(lead + span);
        Some((text, args))
    }

    /// Reads a simple command from the start of the buffer: white space, the
    /// words, of which the first is the command name, then redirections, then
    /// the operator that ends it, if one stands there. The words are split at
    /// every single space. Where no command name stands at the start, nothing
    /// is consumed.
    pub fn parse(feeder: &mut Feeder) -> (r: Option<Command>)
        ensures
            final(feeder).src() == old(feeder).src(),
            r is Some <==> command_head_len(old(feeder).rem()) > 0,
            r is None ==> final(feeder).rem() == old(feeder).rem(),
            r matches Some(c) ==> {
                let s = old(feeder).rem();
                &&& c.reads(s)
                &&& final(feeder).rem() == s.skip(command_len(s) as int)
                &&& c.text@ + final(feeder).stream() == old(feeder).stream()
            },
    {
        let ghost s = feeder.rem();
        let (mut text, args) = match Command::parse_words(feeder) {
            Some(found) => found,
            None => {
                return None;
            },
        };
        let ghost h = command_head_len(s) as int;
        let mut fds = FileDescs::new();
        assert(redirects_view(fds.redirects@) =~= Seq::<(RedirectOp, Seq<char>, Seq<char>)>::empty());
        parse_redirects(feeder, &mut text, &mut fds.redirects);
        let ghost q = h + items_len(s.skip(h));
        proof {
            assert(text@ =~= s.subrange(0, q));
            assert(feeder.rem() =~= s.skip(q));
            assert(redirects_view(fds.redirects@) =~= items_redirects(s.skip(h)));
        }
        let (eoc, n) = scan_control(&feeder.remaining, 0);
        let end = feeder.consume(n);
        append_chars(&mut text, &end);
        proof {
            assert(text@ =~= s.subrange(0, q + n));
            assert(feeder.rem() =~= s.skip(q + n));
            assert(text@ + feeder.stream() =~= s + feeder.src());
            lemma_command_in_own_text(s, q + n);
        }
        Some(Command { text, args, fds, pid: None, group_leader: false, eoc })
    }
}

/// What running a simple command asks of the interpreter.
pub enum SimpleAction {
    /// End the interpreter with this status.
    Exit(i32),
    /// Change the interpreter's own working directory to this path. No
    /// process is started and none is waited for, so `?` keeps the value it
    /// has, whether the change succeeds or fails.
    ChangeDir(String),
    /// Start a child process that runs the program named by the first word,
    /// with all the words as its argument vector.
    Spawn(Vec<String>),
}

/// The words held by a list of strings.
pub open spec fn strings_view(v: Seq<String>) -> Seq<Seq<char>> {
    Seq::new(v.len(), |i: int| v[i]@)
}

impl Command {
    /// The command is the built-in `exit`.
    pub open spec fn is_exit(&self) -> bool {
        self.args@.len() > 0 && self.args@[0]@ == "exit"@
    }

    /// The command is the built-in `cd` with a path.
    pub open spec fn is_cd(&self) -> bool {
        self.args@.len() > 1 && self.args@[0]@ == "cd"@
    }

    /// Decides what running the command takes. `exit` ends the interpreter
    /// with status 0, `cd` with a path changes the interpreter's directory,
    /// and neither starts a process; anything else is run in a child.
    pub fn exec(&self) -> (action: SimpleAction)
        requires
            self.args@.len() > 0,
        ensures
            match action {
                SimpleAction::Exit(code) => self.is_exit() && code == 0,
                SimpleAction::ChangeDir(path) => !self.is_exit() && self.is_cd() && path@
                    == self.args@[1]@,
                SimpleAction::Spawn(argv) => !self.is_exit() && !self.is_cd() && strings_view(
                    argv@,
                ) == words_view(self.args@),
            },
    {
        let name = &self.args[0];
        if word_is(name, 0, name.len(), "exit") {
            assert(name@.subrange(0, name@.len() as int) =~= name@);
            return SimpleAction::Exit(0);
        }
        assert(name@.subrange(0, name@.len() as int) =~= name@);
        if self.args.len() > 1 && word_is(name, 0, name.len(), "cd") {
            return SimpleAction::ChangeDir(string_of(&self.args[1]));
        }
        let mut argv: Vec<String> = Vec::new();
        let mut i: usize = 0;
        while i < self.args.len()
            invariant
                i <= self.args.len(),
                strings_view(argv@) == words_view(self.args@).subrange(0, i as int),
            decreases self.args.len() - i,
        {
            let ghost before = strings_view(argv@);
            let word = string_of(&self.args[i]);
            argv.push(word);
            i += 1;
            assert(strings_view(argv@) =~= before.push(word@));
            assert(words_view(self.args@).subrange(0, i as int) =~= words_view(
                self.args@,
            ).subrange(0, i - 1).push(self.args@[i - 1]@));
        }
        assert(words_view(self.args@).subrange(0, self.args@.len() as int) =~= words_view(
            self.args@,
        ));
        SimpleAction::Spawn(argv)
    }
}

impl Command {
    /// The source text the command was read from.
    pub fn get_text(&self) -> (t: String)
        ensures
            t@ == self.text@,
    {
        string_of(&self.text)
    }

    /// Records the process that runs the command.
    pub fn set_pid(&mut self, pid: Pid)
        ensures
            *final(self) == (Command { pid: Some(pid), ..*old(self) }),
    {
        self.pid = Some(pid);
    }

    pub fn get_pid(&self) -> (pid: Option<Pid>)
        ensures
            pid == self.pid,
    {
        self.pid
    }

    /// Declares the command the leader of a process group.
    pub fn set_group_leader(&mut self)
        ensures
            *final(self) == (Command { group_leader: true, ..*old(self) }),
    {
        self.group_leader = true;
    }

    /// Whether the process that runs the command has to open a process group
    /// of its own before it goes on: it has where the command was declared a
    /// group leader.
    pub fn set_group(&self) -> (join: bool)
        ensures
            join == self.group_leader,
    {
        self.group_leader
    }

    /// Whether the command has no redirection and no pipe end.
    pub fn no_connection(&self) -> (b: bool)
        ensures
            b == self.fds.unconnected(),
    {
        self.fds.no_connection()
    }

    /// Gives the command its pipe ends: the read end and the write end of the
    /// pipe towards the next command, and the read end of the pipe from the
    /// previous one.
    pub fn set_pipe(&mut self, pin: i32, pout: i32, pprev: i32)
        ensures
            final(self).fds.pipein == pin,
            final(self).fds.pipeout == pout,
            final(self).fds.prevpipein == pprev,
            final(self).fds.redirects == old(self).fds.redirects,
            *final(self) == (Command { fds: final(self).fds, ..*old(self) }),
    {
        self.fds.set_pipe(pin, pout, pprev);
    }

    pub fn get_pipe_end(&self) -> (fd: i32)
        ensures
            fd == self.fds.pipein,
    {
        self.fds.pipein
    }

    pub fn get_pipe_out(&self) -> (fd: i32)
        ensures
            fd == self.fds.pipeout,
    {
        self.fds.pipeout
    }

    /// The operator that ended the command, as it is written.
    pub fn get_eoc_string(&self) -> (t: String)
        ensures
            t@ == control_text(self.eoc),
    {
        self.eoc.text()
    }
}

} // verus!
