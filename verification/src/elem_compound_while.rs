//! The `while` loop: a condition and a body, both scripts.

use vstd::prelude::*;
use nix::unistd::Pid;
use crate::feeder::Feeder;
use crate::file_descs::FileDescs;
use crate::grammar::{cond_do_end, while_body_end, while_end};
use crate::items::{
    items_redirects,
    lemma_tail_in_own_text,
    parse_redirects,
    redirects_view,
    tail_holds,
    tail_len,
};
use crate::operators::{control_text, ControlOperator};
use crate::process::ExecMode;
use crate::scanner::{
    lemma_lead_in_own_text,
    lemma_run_len,
    run_len,
    scan_control,
    scanner_while,
    word_at,
    CharClass,
};
use crate::script::{all_space, closes, parse_block, BlockEnd, Script};
use crate::shell_core::ShellCore;
use crate::text::{append_chars, string_of};

verus! {

pub struct CompoundWhile {
    pub conddo: Option<(Script, Script)>,
    pub text: Vec<char>,
    pub pid: Option<Pid>,
    pub fds: FileDescs,
    pub group_leader: bool,
    /// The operator that ended the loop, `NoChar` where none did.
    pub eoc: ControlOperator,
}

impl CompoundWhile {
    /// Condition and body are well-formed scripts, all the way down.
    pub open spec fn scripts_sound(&self) -> bool
        decreases self,
    {
        self.conddo matches Some(pair) ==> pair.0.sound() && pair.1.sound()
    }

    /// The loop is what its own text spells, and condition and body are
    /// well-formed scripts, all the way down.
    pub open spec fn sound(&self) -> bool
        decreases self,
    {
        self.spells(self.text@) && (self.conddo matches Some(pair) ==> pair.0.sound()
            && pair.1.sound())
    }

    /// `t` is the text of the condition, white space, `do`, the text of the
    /// body and white space.
    pub open spec fn pair_spells(&self, t: Seq<char>) -> bool {
        self.conddo matches Some(pair) && exists|ws1: Seq<char>, ws2: Seq<char>|
            all_space(ws1) && all_space(ws2) && t == #[trigger] (pair.0.text@ + ws1 + "do"@
                + pair.1.text@ + ws2)
    }

    /// The text of the loop is the white space that leads `s`, `while`, the
    /// condition and the body as `pair_spells` has them, `done`, and then the
    /// loop's redirections and its closing operator.
    pub open spec fn spells(&self, s: Seq<char>) -> bool {
        exists|pair: Seq<char>, tail: Seq<char>|
            self.pair_spells(pair) && tail_holds(tail, self.fds.redirects@, self.eoc)
                && self.text@ == #[trigger] (s.subrange(
                0,
                run_len(s, 0, CharClass::Space) as int,
            ) + "while"@ + pair + "done"@ + tail)
    }

    /// A loop whose text is made of the white space and the `while` that
    /// lead `s`, a pair, `done` and a tail spells `s`, and spells its own text.
    pub proof fn lemma_spells(&self, s: Seq<char>, pair: Seq<char>, tail: Seq<char>)
        requires
            run_len(s, 0, CharClass::Space) + "while"@.len() <= s.len(),
            s.subrange(0, (run_len(s, 0, CharClass::Space) + "while"@.len()) as int) == s.subrange(
                0,
                run_len(s, 0, CharClass::Space) as int,
            ) + "while"@,
            self.pair_spells(pair),
            tail_holds(tail, self.fds.redirects@, self.eoc),
            self.text@ == s.subrange(0, run_len(s, 0, CharClass::Space) as int) + "while"@ + pair
                + "done"@ + tail,
        ensures
            self.spells(s),
            self.spells(self.text@),
    {
        reveal_strlit("while");
        let lead = run_len(s, 0, CharClass::Space) as int;
        let t = self.text@;
        lemma_run_len(s, 0, CharClass::Space);
        assert(t.subrange(0, lead + 5) =~= s.subrange(0, lead + 5));
        lemma_lead_in_own_text(s, t, lead + 5);
        assert(t == t.subrange(0, run_len(t, 0, CharClass::Space) as int) + "while"@ + pair
            + "done"@ + tail);
    }

    /// A loop without condition and body, with no text, no connection and no
    /// process.
    pub fn new() -> (c: CompoundWhile)
        ensures
            c.conddo is None,
            c.text@.len() == 0,
            c.pid is None,
            c.fds.unconnected(),
            !c.group_leader,
            c.eoc == ControlOperator::NoChar,
    {
        CompoundWhile {
            conddo: None,
            text: Vec::new(),
            pid: None,
            fds: FileDescs::new(),
            group_leader: false,
            eoc: ControlOperator::NoChar,
        }
    }

    /// Reads a condition, `do` and a body, up to `done`, which is not
    /// consumed. What was read goes to the end of the loop's text. On failure
    /// the cursor is back where it was and the command is as it was.
    pub fn parse_cond_do_pair(feeder: &mut Feeder, ans: &mut CompoundWhile) -> (ok: bool)
        ensures
            !ok ==> final(feeder).same_as(old(feeder)),
            !ok ==> *final(ans) == *old(ans),
            ok <==> cond_do_end(old(feeder).pos()) is Some,
            ok ==> {
                &&& final(feeder).pos() == cond_do_end(old(feeder).pos())->0
                &&& final(ans).text@ + final(feeder).stream() == old(ans).text@ + old(
                    feeder,
                ).stream()
                &&& final(ans).text@.len() > old(ans).text@.len()
                &&& old(ans).text@.is_prefix_of(final(ans).text@)
                &&& final(ans).pair_spells(final(ans).text@.skip(old(ans).text@.len() as int))
                &&& final(ans).conddo is Some
                &&& final(ans).scripts_sound()
                &&& closes(final(feeder).rem(), BlockEnd::Done)
            },
            final(ans).pid == old(ans).pid,
            final(ans).fds == old(ans).fds,
            final(ans).group_leader == old(ans).group_leader,
            final(ans).eoc == old(ans).eoc,
        decreases old(feeder).stream().len(), 6int,
    {
        let entry = feeder.snapshot();
        let (cond, ws) = match parse_block(feeder, BlockEnd::Do) {
            Some(b) => b,
            None => {
                return false;
            },
        };
        let word = match feeder.accept(0, "do") {
            Some(t) => t,
            None => {
                feeder.rewind(entry);
                return false;
            },
        };
        proof {
            reveal_strlit("do");
        }
        let (doing, ws2) = match parse_block(feeder, BlockEnd::Done) {
            Some(b) => b,
            None => {
                feeder.rewind(entry);
                return false;
            },
        };
        append_chars(&mut ans.text, &cond.text);
        append_chars(&mut ans.text, &ws);
        append_chars(&mut ans.text, &word);
        append_chars(&mut ans.text, &doing.text);
        append_chars(&mut ans.text, &ws2);
        proof {
            assert(ans.text@ + feeder.stream() =~= old(ans).text@ + (cond.text@ + ws@ + (word@ + (
            doing.text@ + ws2@ + feeder.stream()))));
        }
        ans.conddo = Some((cond, doing));
        proof {
            let t = ans.text@.skip(old(ans).text@.len() as int);
            assert(word@ == "do"@);
            assert(t =~= cond.text@ + ws@ + "do"@ + doing.text@ + ws2@);
            let pair = ans.conddo->0;
            assert(all_space(ws@) && all_space(ws2@) && t == pair.0.text@ + ws@ + "do"@
                + pair.1.text@ + ws2@);
            assert(ans.pair_spells(t));
        }
        true
    }

    /// Reads a loop: white space, `while`, a condition, `do`, a body, `done`,
    /// then redirections and the operator that ends the loop. While a part is
    /// not complete, more lines are asked for; where none comes, the cursor is
    /// put back and nothing is consumed.
    #[verifier::rlimit(60)]
    pub fn parse(feeder: &mut Feeder) -> (r: Option<CompoundWhile>)
        ensures
            r is None ==> final(feeder).same_as(old(feeder)),
            r is Some ==> word_at(
                old(feeder).rem(),
                run_len(old(feeder).rem(), 0, CharClass::Space) as int,
            ) == "while"@,
            r is Some <==> while_end(old(feeder).pos()) is Some,
            r matches Some(c) ==> {
                &&& final(feeder).pos() == (while_end(old(feeder).pos())->0).0
                &&& c.eoc == (while_end(old(feeder).pos())->0).1
                &&& c.text@ + final(feeder).stream() == old(feeder).stream()
                &&& c.text@.len() > 0
                &&& c.spells(old(feeder).rem())
                &&& redirects_view(c.fds.redirects@) == items_redirects((while_body_end(old(feeder).pos())->0).rem)
                &&& c.conddo is Some
                &&& c.sound()
                &&& c.pid is None
                &&& !c.group_leader
                &&& c.fds.pipein == -1 && c.fds.pipeout == -1 && c.fds.prevpipein == -1
            },
        decreases old(feeder).stream().len(), 1int,
    {
        let lead: usize = scanner_while(&feeder.remaining, 0, CharClass::Space);
        let entry = feeder.snapshot();
        let mut ans = CompoundWhile::new();
        match feeder.accept(lead, "while") {
            Some(t) => {
                ans.text = t;
            },
            None => {
                return None;
            },
        }
        proof {
            reveal_strlit("while");
        }
        let ghost head = ans.text@;
        if !CompoundWhile::parse_cond_do_pair(feeder, &mut ans) {
            feeder.rewind(entry);
            return None;
        }
        let ghost pair = ans.text@.skip(head.len() as int);
        let ghost conddo = ans.conddo;
        match feeder.accept(0, "done") {
            Some(t) => {
                append_chars(&mut ans.text, &t);
                assert(ans.text@ =~= head + pair + "done"@);
            },
            None => {
                feeder.rewind(entry);
                return None;
            },
        }
        let ghost after = feeder.rem();
        let ghost spelled = ans.text@;
        parse_redirects(feeder, &mut ans.text, &mut ans.fds.redirects);
        let (eoc, n) = scan_control(&feeder.remaining, 0);
        let end = feeder.consume(n);
        append_chars(&mut ans.text, &end);
        ans.eoc = eoc;
        proof {
            let s = old(feeder).rem();
            let tail = after.subrange(0, tail_len(after) as int);
            lemma_tail_in_own_text(after, ans.fds.redirects@, eoc);
            assert(ans.text@ =~= spelled + tail);
            assert(ans.conddo == conddo);
            ans.lemma_spells(s, pair, tail);
        }
        Some(ans)
    }
}

/// A step in running a `while` loop.
#[derive(Clone, Copy, Debug, PartialEq, Eq, Structural)]
pub enum WhileStep {
    /// Nothing has run yet.
    Start,
    /// The condition.
    Condition,
    /// The body.
    Body,
    /// Nothing is left to run.
    Done,
}

impl CompoundWhile {
    /// The step that follows `ran`, where `succeeded` says whether `?` was `0`
    /// when `ran` was over. The condition is followed by the body where it
    /// succeeded and ends the loop where it did not; the body is followed by
    /// the condition.
    pub open spec fn next_step(&self, ran: WhileStep, succeeded: bool) -> WhileStep {
        match ran {
            WhileStep::Start => if self.conddo is Some {
                WhileStep::Condition
            } else {
                WhileStep::Done
            },
            WhileStep::Condition => if succeeded {
                WhileStep::Body
            } else {
                WhileStep::Done
            },
            WhileStep::Body => WhileStep::Condition,
            WhileStep::Done => WhileStep::Done,
        }
    }

    /// What the loop does from `ran` on while the condition, each time it is
    /// tried, ends as the next of `results` says: how often the body runs, and
    /// the step the loop is at when it has ended or `results` is used up.
    pub open spec fn run(&self, ran: WhileStep, results: Seq<bool>) -> (nat, WhileStep)
        decreases
            results.len(),
            (match ran {
                WhileStep::Start => 2int,
                WhileStep::Body => 1int,
                _ => 0int,
            }),
    {
        if ran is Done {
            (0, WhileStep::Done)
        } else if ran is Condition && results.len() == 0 {
            (0, WhileStep::Condition)
        } else {
            let next = self.next_step(ran, ran is Condition && results[0]);
            let rest = if ran is Condition {
                results.skip(1)
            } else {
                results
            };
            let after = self.run(next, rest);
            (
                after.0 + (if next is Body {
                    1nat
                } else {
                    0nat
                }),
                after.1,
            )
        }
    }

    /// Where the loop runs: in the interpreter's own process while it has no
    /// connection, else in a child.
    pub fn exec(&self) -> (mode: ExecMode)
        ensures
            mode == (if self.fds.unconnected() {
                ExecMode::InProcess
            } else {
                ExecMode::Forked
            }),
    {
        self.exec_mode()
    }

    /// Decides the step that follows `ran`, by the value that `?` has now.
    pub fn exec_do_compound(&self, ran: WhileStep, core: &ShellCore) -> (next: WhileStep)
        ensures
            next == self.next_step(ran, core.succeeded()),
    {
        match ran {
            WhileStep::Start => {
                if self.conddo.is_some() {
                    WhileStep::Condition
                } else {
                    WhileStep::Done
                }
            },
            WhileStep::Condition => {
                if core.status_is_zero() {
                    WhileStep::Body
                } else {
                    WhileStep::Done
                }
            },
            WhileStep::Body => WhileStep::Condition,
            WhileStep::Done => WhileStep::Done,
        }
    }

    /// A loop ends when its condition fails for the first time, and until
    /// then its body has run once for each time the condition succeeded.
    pub proof fn lemma_stops_at_first_failure(&self, results: Seq<bool>, k: int)
        requires
            self.conddo is Some,
            0 <= k < results.len(),
            !results[k],
            forall|j: int| 0 <= j < k ==> results[j],
        ensures
            self.run(WhileStep::Condition, results) == (k as nat, WhileStep::Done),
            self.run(WhileStep::Start, results) == (k as nat, WhileStep::Done),
        decreases k,
    {
        reveal_with_fuel(CompoundWhile::run, 3);
        if k > 0 {
            let rest = results.skip(1);
            assert forall|j: int| 0 <= j < k - 1 implies rest[j] by {
                assert(rest[j] == results[j + 1]);
            }
            self.lemma_stops_at_first_failure(rest, k - 1);
            assert(self.run(WhileStep::Body, rest) == self.run(WhileStep::Condition, rest));
        } else {
            assert(self.run(WhileStep::Done, results.skip(1)) == (0nat, WhileStep::Done));
        }
    }
}

impl CompoundWhile {
    /// The source text the command was read from.
    pub fn get_text(&self) -> (t: String)
        ensures
            t@ == self.text@,
    {
        string_of(&self.text)
    }

    /// Records the process that runs the command.
    pub fn set_pid(&mut self, pid: Pid)
        ensures
            *final(self) == (CompoundWhile { pid: Some(pid), ..*old(self) }),
    {
        self.pid = Some(pid);
    }

    pub fn get_pid(&self) -> (pid: Option<Pid>)
        ensures
            pid == self.pid,
    {
        self.pid
    }

    /// Declares the command the leader of a process group.
    pub fn set_group_leader(&mut self)
        ensures
            *final(self) == (CompoundWhile { group_leader: true, ..*old(self) }),
    {
        self.group_leader = true;
    }

    /// Whether the process that runs the command has to open a process group
    /// of its own before it goes on: it has where the command was declared a
    /// group leader.
    pub fn set_group(&self) -> (join: bool)
        ensures
            join == self.group_leader,
    {
        self.group_leader
    }

    /// Whether the command has no redirection and no pipe end.
    pub fn no_connection(&self) -> (b: bool)
        ensures
            b == self.fds.unconnected(),
    {
        self.fds.no_connection()
    }

    /// Gives the command its pipe ends: the read end and the write end of the
    /// pipe towards the next command, and the read end of the pipe from the
    /// previous one.
    pub fn set_pipe(&mut self, pin: i32, pout: i32, pprev: i32)
        ensures
            final(self).fds.pipein == pin,
            final(self).fds.pipeout == pout,
            final(self).fds.prevpipein == pprev,
            final(self).fds.redirects == old(self).fds.redirects,
            *final(self) == (CompoundWhile { fds: final(self).fds, ..*old(self) }),
    {
        self.fds.set_pipe(pin, pout, pprev);
    }

    pub fn get_pipe_end(&self) -> (fd: i32)
        ensures
            fd == self.fds.pipein,
    {
        self.fds.pipein
    }

    pub fn get_pipe_out(&self) -> (fd: i32)
        ensures
            fd == self.fds.pipeout,
    {
        self.fds.pipeout
    }

    /// The operator that ended the command, as it is written.
    pub fn get_eoc_string(&self) -> (t: String)
        ensures
            t@ == control_text(self.eoc),
    {
        self.eoc.text()
    }

    /// Where the command runs: in the interpreter's own process while it has
    /// no connection, else in a child.
    pub fn exec_mode(&self) -> (mode: ExecMode)
        ensures
            mode == (if self.fds.unconnected() {
                ExecMode::InProcess
            } else {
                ExecMode::Forked
            }),
    {
        if self.fds.no_connection() {
            ExecMode::InProcess
        } else {
            ExecMode::Forked
        }
    }
}

} // verus!
