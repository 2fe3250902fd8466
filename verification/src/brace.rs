//! The brace group: a script between `{` and `}` that runs as one unit.

use vstd::prelude::*;
use nix::unistd::Pid;
use crate::feeder::Feeder;
use crate::file_descs::FileDescs;
use crate::grammar::{brace_body_end, brace_end};
use crate::items::{
    items_redirects,
    lemma_tail_in_own_text,
    parse_redirects,
    redirects_view,
    tail_holds,
    tail_len,
};
use crate::operators::{control_text, ControlOperator};
use crate::process::ExecMode;
use crate::scanner::{
    lemma_lead_in_own_text,
    lemma_run_len,
    run_len,
    scan_control,
    scanner_while,
    word_at,
    CharClass,
};
use crate::script::{all_space, parse_block, BlockEnd, Script};
use crate::text::{append_chars, chars_of, string_of};

verus! {

/// Whether `s` ends at a statement boundary: its last character that is no
/// space is a line break, a semicolon or a tab.
pub open spec fn ends_at_boundary(s: Seq<char>) -> bool
    decreases s.len(),
{
    if s.len() == 0 {
        false
    } else if s.last() == ' ' {
        ends_at_boundary(s.drop_last())
    } else {
        s.last() == '\n' || s.last() == ';' || s.last() == '\t'
    }
}

/// Scans `v` from its end for a statement boundary.
pub fn boundary_tail(v: &Vec<char>) -> (b: bool)
    ensures
        b == ends_at_boundary(v@),
{
    let mut i: usize = v.len();
    assert(v@.subrange(0, i as int) =~= v@);
    while i > 0
        invariant
            i <= v.len(),
            ends_at_boundary(v@) == ends_at_boundary(v@.subrange(0, i as int)),
        decreases i,
    {
        let c = v[i - 1];
        let ghost cur = v@.subrange(0, i as int);
        assert(cur.last() == c);
        if c == ' ' {
            assert(cur.drop_last() =~= v@.subrange(0, i - 1));
            i -= 1;
        } else {
            return c == '\n' || c == ';' || c == '\t';
        }
    }
    false
}

/// Whether the text of a group's inner script ends at a statement boundary.
pub fn tail_check(s: &String) -> (b: bool)
    ensures
        b == ends_at_boundary(s@),
{
    let v = chars_of(s.as_str());
    boundary_tail(&v)
}

pub struct CommandBrace {
    pub script: Script,
    pub text: Vec<char>,
    pub pid: Option<Pid>,
    pub fds: FileDescs,
    pub group_leader: bool,
    /// The operator that ended the group, `NoChar` where none did.
    pub eoc: ControlOperator,
}

impl CommandBrace {
    /// The group is what its own text spells, and its script is well formed
    /// all the way down.
    pub open spec fn sound(&self) -> bool
        decreases self,
    {
        self.spells(self.text@) && self.script.sound()
    }

    /// The text of the group is the white space that leads `s`, `{`, the
    /// text of the script, white space, `}`, and then the group's
    /// redirections and its closing operator; the script with that white
    /// space ends at a statement boundary.
    pub open spec fn spells(&self, s: Seq<char>) -> bool {
        exists|ws: Seq<char>, tail: Seq<char>|
            all_space(ws) && ends_at_boundary(self.script.text@ + ws) && tail_holds(
                tail,
                self.fds.redirects@,
                self.eoc,
            ) && self.text@ == #[trigger] (s.subrange(0, run_len(s, 0, CharClass::Space) as int)
                + "{"@ + self.script.text@ + ws + "}"@ + tail)
    }

    /// A group around `script`, with no text, no connection and no process.
    pub fn new(script: Script) -> (c: CommandBrace)
        ensures
            c.script == script,
            c.text@.len() == 0,
            c.pid is None,
            c.fds.unconnected(),
            !c.group_leader,
            c.eoc == ControlOperator::NoChar,
    {
        CommandBrace {
            script,
            text: Vec::new(),
            pid: None,
            fds: FileDescs::new(),
            group_leader: false,
            eoc: ControlOperator::NoChar,
        }
    }

    /// Reads a brace group: white space, `{`, a script that ends at a statement
    /// boundary, `}`, then redirections and the operator that ends the group.
    /// While the group is not closed, more lines are asked for; where none
    /// comes, the cursor is put back and nothing is consumed.
    pub fn parse(feeder: &mut Feeder) -> (r: Option<CommandBrace>)
        ensures
            r is None ==> final(feeder).same_as(old(feeder)),
            r is Some ==> word_at(
                old(feeder).rem(),
                run_len(old(feeder).rem(), 0, CharClass::Space) as int,
            ) == "{"@,
            r is Some <==> brace_end(old(feeder).pos()) is Some,
            r matches Some(c) ==> {
                &&& final(feeder).pos() == (brace_end(old(feeder).pos())->0).0
                &&& c.eoc == (brace_end(old(feeder).pos())->0).1
                &&& c.text@ + final(feeder).stream() == old(feeder).stream()
                &&& c.text@.len() > 0
                &&& c.spells(old(feeder).rem())
                &&& redirects_view(c.fds.redirects@) == items_redirects((brace_body_end(old(feeder).pos())->0).rem)
                &&& c.sound()
                &&& c.pid is None
                &&& !c.group_leader
                &&& c.fds.pipein == -1 && c.fds.pipeout == -1 && c.fds.prevpipein == -1
            },
        decreases old(feeder).stream().len(), 1int,
    {
        let lead: usize = scanner_while(&feeder.remaining, 0, CharClass::Space);
        let entry = feeder.snapshot();
        let mut text = match feeder.accept(lead, "{") {
            Some(t) => t,
            None => {
                return None;
            },
        };
        proof {
            reveal_strlit("{");
        }
        let (script, ws) = match parse_block(feeder, BlockEnd::Brace) {
            Some(b) => b,
            None => {
                feeder.rewind(entry);
                return None;
            },
        };
        append_chars(&mut text, &script.text);
        append_chars(&mut text, &ws);
        let close = match feeder.accept(0, "}") {
            Some(t) => t,
            None => {
                feeder.rewind(entry);
                return None;
            },
        };
        append_chars(&mut text, &close);
        let ghost body = text@;
        let ghost lead_ws = old(feeder).rem().subrange(0, lead as int);
        assert(body =~= lead_ws + "{"@ + script.text@ + ws@ + "}"@);
        let mut ans = CommandBrace::new(script);
        let ghost after = feeder.rem();
        parse_redirects(feeder, &mut text, &mut ans.fds.redirects);
        let (eoc, n) = scan_control(&feeder.remaining, 0);
        let end = feeder.consume(n);
        append_chars(&mut text, &end);
        ans.text = text;
        ans.eoc = eoc;
        proof {
            let s = old(feeder).rem();
            let tail = after.subrange(0, tail_len(after) as int);
            lemma_tail_in_own_text(after, ans.fds.redirects@, eoc);
            assert(ans.text@ =~= body + tail);
            assert(all_space(ws@) && ends_at_boundary(ans.script.text@ + ws@) && tail_holds(
                tail,
                ans.fds.redirects@,
                ans.eoc,
            ) && ans.text@ == s.subrange(0, run_len(s, 0, CharClass::Space) as int) + "{"@
                + ans.script.text@ + ws@ + "}"@ + tail);
            lemma_run_len(s, 0, CharClass::Space);
            assert(ans.text@.subrange(0, lead + 1) =~= s.subrange(0, lead + 1));
            lemma_lead_in_own_text(s, ans.text@, lead + 1);
            let t = ans.text@;
            assert(ans.text@ == t.subrange(0, run_len(t, 0, CharClass::Space) as int) + "{"@
                + ans.script.text@ + ws@ + "}"@ + tail);
        }
        Some(ans)
    }
}

/// A step in running a brace group.
#[derive(Clone, Copy, Debug, PartialEq, Eq, Structural)]
pub enum BraceStep {
    /// Nothing has run yet.
    Start,
    /// The script of the group.
    Script,
    /// The end of the process that ran the group, with the status that `?`
    /// holds.
    Exit,
    /// Nothing is left to run.
    Done,
}

impl CommandBrace {
    /// The step that follows `ran`. The script comes first. Behind it a group
    /// with a connection, which runs in a child, ends that child; a group
    /// without one just ends.
    pub open spec fn next_step(&self, ran: BraceStep) -> BraceStep {
        match ran {
            BraceStep::Start => BraceStep::Script,
            BraceStep::Script => if self.fds.unconnected() {
                BraceStep::Done
            } else {
                BraceStep::Exit
            },
            BraceStep::Exit => BraceStep::Done,
            BraceStep::Done => BraceStep::Done,
        }
    }

    /// Decides the step that follows `ran`.
    pub fn exec_elems(&self, ran: BraceStep) -> (next: BraceStep)
        ensures
            next == self.next_step(ran),
    {
        match ran {
            BraceStep::Start => BraceStep::Script,
            BraceStep::Script => {
                if self.fds.no_connection() {
                    BraceStep::Done
                } else {
                    BraceStep::Exit
                }
            },
            _ => BraceStep::Done,
        }
    }
}

impl CommandBrace {
    /// The source text the command was read from.
    pub fn get_text(&self) -> (t: String)
        ensures
            t@ == self.text@,
    {
        string_of(&self.text)
    }

    /// Records the process that runs the command.
    pub fn set_pid(&mut self, pid: Pid)
        ensures
            *final(self) == (CommandBrace { pid: Some(pid), ..*old(self) }),
    {
        self.pid = Some(pid);
    }

    pub fn get_pid(&self) -> (pid: Option<Pid>)
        ensures
            pid == self.pid,
    {
        self.pid
    }

    /// Declares the command the leader of a process group.
    pub fn set_group_leader(&mut self)
        ensures
            *final(self) == (CommandBrace { group_leader: true, ..*old(self) }),
    {
        self.group_leader = true;
    }

    /// Whether the process that runs the command has to open a process group
    /// of its own before it goes on: it has where the command was declared a
    /// group leader.
    pub fn set_group(&self) -> (join: bool)
        ensures
            join == self.group_leader,
    {
        self.group_leader
    }

    /// Whether the command has no redirection and no pipe end.
    pub fn no_connection(&self) -> (b: bool)
        ensures
            b == self.fds.unconnected(),
    {
        self.fds.no_connection()
    }

    /// Gives the command its pipe ends: the read end and the write end of the
    /// pipe towards the next command, and the read end of the pipe from the
    /// previous one.
    pub fn set_pipe(&mut self, pin: i32, pout: i32, pprev: i32)
        ensures
            final(self).fds.pipein == pin,
            final(self).fds.pipeout == pout,
            final(self).fds.prevpipein == pprev,
            final(self).fds.redirects == old(self).fds.redirects,
            *final(self) == (CommandBrace { fds: final(self).fds, ..*old(self) }),
    {
        self.fds.set_pipe(pin, pout, pprev);
    }

    pub fn get_pipe_end(&self) -> (fd: i32)
        ensures
            fd == self.fds.pipein,
    {
        self.fds.pipein
    }

    pub fn get_pipe_out(&self) -> (fd: i32)
        ensures
            fd == self.fds.pipeout,
    {
        self.fds.pipeout
    }

    /// The operator that ended the command, as it is written.
    pub fn get_eoc_string(&self) -> (t: String)
        ensures
            t@ == control_text(self.eoc),
    {
        self.eoc.text()
    }

    /// Where the command runs: in the interpreter's own process while it has
    /// no connection, else in a child.
    pub fn exec_mode(&self) -> (mode: ExecMode)
        ensures
            mode == (if self.fds.unconnected() {
                ExecMode::InProcess
            } else {
                ExecMode::Forked
            }),
    {
        if self.fds.no_connection() {
            ExecMode::InProcess
        } else {
            ExecMode::Forked
        }
    }
}

} // verus!
