//! The command node: one of the four kinds of command, with what all of them
//! share.

use vstd::prelude::*;
use nix::unistd::Pid;
use crate::brace::CommandBrace;
use crate::decimal::status_number;
use crate::elem_command::{command_head_len, Command};
use crate::elem_compound_while::CompoundWhile;
use crate::feeder::Feeder;
use crate::file_descs::FileDescs;
use crate::grammar::command_end;
use crate::if_command::CommandIf;
use crate::operators::ControlOperator;
use crate::process::ExecMode;
use crate::scanner::{run_len, word_at, CharClass};
use crate::shell_core::ShellCore;
use crate::text::{slice_of, string_of};

verus! {

pub enum CommandNode {
    Simple(Command),
    If(CommandIf),
    While(CompoundWhile),
    Brace(CommandBrace),
}

impl CommandNode {
    /// The source text the node was read from.
    pub open spec fn text_view(&self) -> Seq<char> {
        match self {
            CommandNode::Simple(c) => c.text@,
            CommandNode::If(c) => c.text@,
            CommandNode::While(c) => c.text@,
            CommandNode::Brace(c) => c.text@,
        }
    }

    /// The operator that ended the node.
    pub open spec fn eoc_view(&self) -> ControlOperator {
        match self {
            CommandNode::Simple(c) => c.eoc,
            CommandNode::If(c) => c.eoc,
            CommandNode::While(c) => c.eoc,
            CommandNode::Brace(c) => c.eoc,
        }
    }

    /// The node has a text; a simple command has the words, the redirections
    /// and the closing operator that its own text holds; and every script
    /// under a compound command is well formed all the way down.
    pub open spec fn sound(&self) -> bool
        decreases self,
    {
        &&& self.text_view().len() > 0
        &&& match self {
            CommandNode::Simple(c) => c.holds_own_text(),
            CommandNode::If(c) => c.sound(),
            CommandNode::While(c) => c.sound(),
            CommandNode::Brace(c) => c.sound(),
        }
    }

    /// The process that runs the node, once it has one.
    pub open spec fn pid_view(&self) -> Option<Pid> {
        match self {
            CommandNode::Simple(c) => c.pid,
            CommandNode::If(c) => c.pid,
            CommandNode::While(c) => c.pid,
            CommandNode::Brace(c) => c.pid,
        }
    }

    /// The node's redirections and pipe ends.
    pub open spec fn fds_view(&self) -> FileDescs {
        match self {
            CommandNode::Simple(c) => c.fds,
            CommandNode::If(c) => c.fds,
            CommandNode::While(c) => c.fds,
            CommandNode::Brace(c) => c.fds,
        }
    }

    /// Whether the node was declared the leader of a process group.
    pub open spec fn leads_group(&self) -> bool {
        match self {
            CommandNode::Simple(c) => c.group_leader,
            CommandNode::If(c) => c.group_leader,
            CommandNode::While(c) => c.group_leader,
            CommandNode::Brace(c) => c.group_leader,
        }
    }

    /// The node with its process, its place in a process group and its
    /// connections set as given, and all the rest as it is.
    pub open spec fn with_marks(
        self,
        pid: Option<Pid>,
        group_leader: bool,
        fds: FileDescs,
    ) -> CommandNode {
        match self {
            CommandNode::Simple(c) => CommandNode::Simple(Command { pid, group_leader, fds, ..c }),
            CommandNode::If(c) => CommandNode::If(CommandIf { pid, group_leader, fds, ..c }),
            CommandNode::While(c) => CommandNode::While(
                CompoundWhile { pid, group_leader, fds, ..c },
            ),
            CommandNode::Brace(c) => CommandNode::Brace(
                CommandBrace { pid, group_leader, fds, ..c },
            ),
        }
    }

    /// Reads one command: an `if`, a `while`, a brace group or a simple
    /// command, whichever matches first in this order. Where none matches,
    /// nothing is consumed.
    pub fn parse(feeder: &mut Feeder) -> (r: Option<CommandNode>)
        ensures
            r is None ==> final(feeder).same_as(old(feeder)),
            command_head_len(old(feeder).rem()) > 0 ==> r is Some,
            r is Some <==> command_end(old(feeder).pos()) is Some,
            r matches Some(c) ==> {
                let s = old(feeder).rem();
                let lead = run_len(s, 0, CharClass::Space) as int;
                &&& final(feeder).pos() == (command_end(old(feeder).pos())->0).0
                &&& c.eoc_view() == (command_end(old(feeder).pos())->0).1
                &&& c.text_view() + final(feeder).stream() == old(feeder).stream()
                &&& c.text_view().len() > 0
                &&& c.sound()
                &&& c.pid_view() is None
                &&& !c.leads_group()
                &&& c.fds_view().pipein == -1 && c.fds_view().pipeout == -1
                    && c.fds_view().prevpipein == -1
                &&& c is If ==> word_at(s, lead) == "if"@
                &&& c is While ==> word_at(s, lead) == "while"@
                &&& c is Brace ==> word_at(s, lead) == "{"@
                &&& c matches CommandNode::Simple(sc) ==> sc.reads(s)
            },
        decreases old(feeder).stream().len(), 2int,
    {
        if let Some(c) = CommandIf::parse(feeder) {
            return Some(CommandNode::If(c));
        }
        if let Some(c) = CompoundWhile::parse(feeder) {
            return Some(CommandNode::While(c));
        }
        if let Some(c) = CommandBrace::parse(feeder) {
            return Some(CommandNode::Brace(c));
        }
        match Command::parse(feeder) {
            Some(c) => Some(CommandNode::Simple(c)),
            None => None,
        }
    }

    /// A copy of the node's source text.
    pub fn text_chars(&self) -> (t: Vec<char>)
        ensures
            t@ == self.text_view(),
    {
        let t = match self {
            CommandNode::Simple(c) => &c.text,
            CommandNode::If(c) => &c.text,
            CommandNode::While(c) => &c.text,
            CommandNode::Brace(c) => &c.text,
        };
        let r = slice_of(t, 0, t.len());
        assert(t@.subrange(0, t@.len() as int) =~= t@);
        r
    }

    /// The node's source text, as a string.
    pub fn get_text(&self) -> (t: String)
        ensures
            t@ == self.text_view(),
    {
        match self {
            CommandNode::Simple(c) => string_of(&c.text),
            CommandNode::If(c) => string_of(&c.text),
            CommandNode::While(c) => string_of(&c.text),
            CommandNode::Brace(c) => string_of(&c.text),
        }
    }

    pub fn get_eoc(&self) -> (op: ControlOperator)
        ensures
            op == self.eoc_view(),
    {
        match self {
            CommandNode::Simple(c) => c.eoc,
            CommandNode::If(c) => c.eoc,
            CommandNode::While(c) => c.eoc,
            CommandNode::Brace(c) => c.eoc,
        }
    }

    /// Records the process that runs the node.
    pub fn set_pid(&mut self, pid: Pid)
        ensures
            *final(self) == old(self).with_marks(
                Some(pid),
                old(self).leads_group(),
                old(self).fds_view(),
            ),
    {
        match self {
            CommandNode::Simple(c) => c.set_pid(pid),
            CommandNode::If(c) => c.set_pid(pid),
            CommandNode::While(c) => c.set_pid(pid),
            CommandNode::Brace(c) => c.set_pid(pid),
        }
    }

    pub fn get_pid(&self) -> (pid: Option<Pid>)
        ensures
            pid == self.pid_view(),
    {
        match self {
            CommandNode::Simple(c) => c.pid,
            CommandNode::If(c) => c.pid,
            CommandNode::While(c) => c.pid,
            CommandNode::Brace(c) => c.pid,
        }
    }

    /// Declares the node the leader of a process group.
    pub fn set_group_leader(&mut self)
        ensures
            *final(self) == old(self).with_marks(old(self).pid_view(), true, old(self).fds_view()),
    {
        match self {
            CommandNode::Simple(c) => c.set_group_leader(),
            CommandNode::If(c) => c.set_group_leader(),
            CommandNode::While(c) => c.set_group_leader(),
            CommandNode::Brace(c) => c.set_group_leader(),
        }
    }

    /// Whether the process that runs the node has to open a process group of
    /// its own before it goes on.
    pub fn set_group(&self) -> (join: bool)
        ensures
            join == self.leads_group(),
    {
        match self {
            CommandNode::Simple(c) => c.group_leader,
            CommandNode::If(c) => c.group_leader,
            CommandNode::While(c) => c.group_leader,
            CommandNode::Brace(c) => c.group_leader,
        }
    }

    /// Whether the node has no redirection and no pipe end.
    pub fn no_connection(&self) -> (b: bool)
        ensures
            b == self.fds_view().unconnected(),
    {
        match self {
            CommandNode::Simple(c) => c.fds.no_connection(),
            CommandNode::If(c) => c.fds.no_connection(),
            CommandNode::While(c) => c.fds.no_connection(),
            CommandNode::Brace(c) => c.fds.no_connection(),
        }
    }

    /// Gives the node its pipe ends.
    pub fn set_pipe(&mut self, pin: i32, pout: i32, pprev: i32)
        ensures
            final(self).fds_view().pipein == pin,
            final(self).fds_view().pipeout == pout,
            final(self).fds_view().prevpipein == pprev,
            final(self).fds_view().redirects == old(self).fds_view().redirects,
            *final(self) == old(self).with_marks(
                old(self).pid_view(),
                old(self).leads_group(),
                final(self).fds_view(),
            ),
    {
        match self {
            CommandNode::Simple(c) => c.set_pipe(pin, pout, pprev),
            CommandNode::If(c) => c.set_pipe(pin, pout, pprev),
            CommandNode::While(c) => c.set_pipe(pin, pout, pprev),
            CommandNode::Brace(c) => c.set_pipe(pin, pout, pprev),
        }
    }

    pub fn get_pipe_end(&self) -> (fd: i32)
        ensures
            fd == self.fds_view().pipein,
    {
        match self {
            CommandNode::Simple(c) => c.fds.pipein,
            CommandNode::If(c) => c.fds.pipein,
            CommandNode::While(c) => c.fds.pipein,
            CommandNode::Brace(c) => c.fds.pipein,
        }
    }

    pub fn get_pipe_out(&self) -> (fd: i32)
        ensures
            fd == self.fds_view().pipeout,
    {
        match self {
            CommandNode::Simple(c) => c.fds.pipeout,
            CommandNode::If(c) => c.fds.pipeout,
            CommandNode::While(c) => c.fds.pipeout,
            CommandNode::Brace(c) => c.fds.pipeout,
        }
    }

    /// The status with which a child ends that ran the node by itself: 0
    /// behind a `while` loop, and else the status that `?` holds.
    pub open spec fn child_status_of(&self, core: &ShellCore) -> Option<i32> {
        match self {
            CommandNode::While(_) => Some(0i32),
            _ => match core.value_of(seq!['?']) {
                Some(v) => status_number(v),
                None => None,
            },
        }
    }

    /// Decides the status with which a child ends that ran the node by
    /// itself; none where `?` holds no number.
    pub fn child_status(&self, core: &ShellCore) -> (code: Option<i32>)
        ensures
            code == self.child_status_of(core),
    {
        match self {
            CommandNode::While(_) => Some(0),
            _ => core.status_code(),
        }
    }

    /// Where a compound node runs: in the interpreter's own process while it
    /// has no connection, else in a child.
    pub fn exec_mode(&self) -> (mode: ExecMode)
        ensures
            mode == (if self.fds_view().unconnected() {
                ExecMode::InProcess
            } else {
                ExecMode::Forked
            }),
    {
        if self.no_connection() {
            ExecMode::InProcess
        } else {
            ExecMode::Forked
        }
    }
}

} // verus!
