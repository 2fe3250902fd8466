//! The pipeline: commands joined by `|`.

use vstd::prelude::*;
use crate::command::CommandNode;
use crate::elem_command::command_head_len;
use crate::feeder::Feeder;
use crate::grammar::{command_end, commands_end, pipeline_end};
use crate::operators::ControlOperator;
use crate::process::WaitOutcome;
use crate::shell_core::{status_of, ShellCore};
use crate::text::{append_chars, chars_of, slice_of, string_of};

verus! {

/// The texts of the commands of a list, one after another.
pub open spec fn commands_text(list: Seq<CommandNode>) -> Seq<char>
    decreases list.len(),
{
    if list.len() == 0 {
        Seq::empty()
    } else {
        commands_text(list.drop_last()) + list.last().text_view()
    }
}

/// What running one command of a pipeline takes.
#[derive(Clone, Copy, Debug, PartialEq, Eq, Structural)]
pub struct StagePlan {
    /// A pipe is opened from this command to the next one.
    pub pipe_to_next: bool,
    /// A pipe is opened from this command to the interpreter, which reads the
    /// command's output from it.
    pub capture: bool,
    /// The interpreter waits for this command and records how it ended.
    pub wait: bool,
}

/// The plan of command `i` among `n`: every command but the last pipes into
/// the next one; the last one is waited for, and captured where the pipeline
/// asks for it.
pub open spec fn stage_plan(i: int, n: int, expansion: bool) -> StagePlan {
    StagePlan { pipe_to_next: i + 1 < n, capture: expansion && i + 1 == n, wait: i + 1 == n }
}

/// Number of pipes between commands that a plan opens.
pub open spec fn pipes_opened(plan: Seq<StagePlan>) -> nat
    decreases plan.len(),
{
    if plan.len() == 0 {
        0
    } else {
        pipes_opened(plan.drop_last()) + (if plan.last().pipe_to_next {
            1nat
        } else {
            0nat
        })
    }
}

/// Number of commands that a plan waits for.
pub open spec fn waits(plan: Seq<StagePlan>) -> nat
    decreases plan.len(),
{
    if plan.len() == 0 {
        0
    } else {
        waits(plan.drop_last()) + (if plan.last().wait {
            1nat
        } else {
            0nat
        })
    }
}

/// `s` without the line break at its end, if it ends with one.
pub open spec fn strip_newline(s: Seq<char>) -> Seq<char> {
    if s.len() > 0 && s.last() == '\n' {
        s.drop_last()
    } else {
        s
    }
}

pub struct Pipeline {
    pub commands: Vec<CommandNode>,
    pub text: Vec<char>,
    /// Whether the output of the last command is to be captured.
    pub expansion: bool,
}

impl Pipeline {
    /// The pipeline holds a command, its text is the text of its commands, and
    /// every command but the last is ended by `|`.
    pub open spec fn well_formed(&self) -> bool {
        &&& self.commands@.len() > 0
        &&& self.text@ == commands_text(self.commands@)
        &&& forall|i: int|
            0 <= i < self.commands@.len() - 1 ==> (#[trigger] self.commands@[i]).eoc_view()
                == ControlOperator::Pipe
    }

    /// The pipeline is well formed, and so is everything under it.
    pub open spec fn sound(&self) -> bool
        decreases self,
    {
        &&& self.well_formed()
        &&& forall|i: int| 0 <= i < self.commands@.len() ==> (#[trigger] self.commands@[i]).sound()
    }

    pub fn new() -> (p: Pipeline)
        ensures
            p.commands@.len() == 0,
            p.text@.len() == 0,
            !p.expansion,
    {
        Pipeline { commands: Vec::new(), text: Vec::new(), expansion: false }
    }

    /// The operator that ended the last command, `NoChar` for an empty pipeline.
    pub fn last_eoc(&self) -> (op: ControlOperator)
        ensures
            op == (if self.commands@.len() == 0 {
                ControlOperator::NoChar
            } else {
                self.commands@.last().eoc_view()
            }),
    {
        let n: usize = self.commands.len();
        if n == 0 {
            ControlOperator::NoChar
        } else {
            self.commands[n - 1].get_eoc()
        }
    }

    /// Reads commands for as long as each is ended by `|` and another one
    /// follows. Where not even one command stands at the start, nothing is
    /// consumed.
    pub fn parse(feeder: &mut Feeder) -> (r: Option<Pipeline>)
        ensures
            r is None ==> final(feeder).same_as(old(feeder)),
            command_head_len(old(feeder).rem()) > 0 ==> r is Some,
            r is Some <==> pipeline_end(old(feeder).pos()) is Some,
            r matches Some(p) ==> {
                &&& final(feeder).pos() == (pipeline_end(old(feeder).pos())->0).0
                &&& p.commands@.last().eoc_view() == (pipeline_end(old(feeder).pos())->0).1
                &&& p.text@ + final(feeder).stream() == old(feeder).stream()
                &&& p.text@.len() > 0
                &&& p.sound()
                &&& !p.expansion
            },
        decreases old(feeder).stream().len(), 3int,
    {
        let mut ans = Pipeline::new();
        let mut open: bool = true;
        let ghost mut last = ControlOperator::NoChar;
        assert(ans.text@ + feeder.stream() =~= feeder.stream());
        assert(ans.text@ =~= commands_text(ans.commands@));
        while open
            invariant
                !ans.expansion,
                ans.text@ + feeder.stream() == old(feeder).stream(),
                ans.text@ == commands_text(ans.commands@),
                forall|i: int|
                    0 <= i < ans.commands@.len() ==> (#[trigger] ans.commands@[i]).sound(),
                ans.commands@.len() == 0 ==> ans.text@.len() == 0 && feeder.same_as(old(feeder)),
                ans.commands@.len() > 0 ==> ans.text@.len() > 0,
                !open ==> (ans.commands@.len() == 0 ==> command_head_len(old(feeder).rem()) == 0),
                forall|i: int|
                    0 <= i < ans.commands@.len() - (if open {
                        0int
                    } else {
                        1int
                    }) ==> (#[trigger] ans.commands@[i]).eoc_view() == ControlOperator::Pipe,
                commands_end(old(feeder).pos(), ControlOperator::NoChar) == (if open {
                    commands_end(feeder.pos(), last)
                } else {
                    (feeder.pos(), last)
                }),
                last == (if ans.commands@.len() == 0 {
                    ControlOperator::NoChar
                } else {
                    ans.commands@.last().eoc_view()
                }),
                ans.commands@.len() > 0 ==> command_end(old(feeder).pos()) is Some,
                ans.commands@.len() == 0 ==> feeder.pos() == old(feeder).pos(),
                !open && ans.commands@.len() == 0 ==> command_end(old(feeder).pos()) is None,
            decreases feeder.stream().len() + (if open { 1int } else { 0int }),
        {
            let ghost text_before = ans.text@;
            match CommandNode::parse(feeder) {
                Some(c) => {
                    open = c.get_eoc() == ControlOperator::Pipe;
                    let t = c.text_chars();
                    append_chars(&mut ans.text, &t);
                    proof {
                        assert(ans.commands@.push(c).drop_last() =~= ans.commands@);
                        assert(ans.text@ + feeder.stream() =~= text_before + (c.text_view()
                            + feeder.stream()));
                    }
                    proof {
                        last = c.eoc_view();
                    }
                    ans.commands.push(c);
                },
                None => {
                    open = false;
                },
            }
        }
        if ans.commands.len() > 0 {
            Some(ans)
        } else {
            None
        }
    }

    /// Plans the run of the pipeline, command by command. A pipeline of `n`
    /// commands opens `n - 1` pipes between them and waits for the last
    /// command only; an empty pipeline does nothing.
    pub fn exec(&self) -> (plan: Vec<StagePlan>)
        ensures
            plan@.len() == self.commands@.len(),
            forall|i: int|
                0 <= i < plan@.len() ==> #[trigger] plan@[i] == stage_plan(
                    i,
                    self.commands@.len() as int,
                    self.expansion,
                ),
            plan@.len() > 0 ==> pipes_opened(plan@) == plan@.len() - 1,
            plan@.len() > 0 ==> waits(plan@) == 1 && plan@.last().wait,
    {
        let n: usize = self.commands.len();
        let mut plan: Vec<StagePlan> = Vec::new();
        let mut i: usize = 0;
        while i < n
            invariant
                i <= n,
                n == self.commands@.len(),
                plan@.len() == i,
                forall|j: int|
                    0 <= j < i ==> #[trigger] plan@[j] == stage_plan(j, n as int, self.expansion),
                n > 0 ==> pipes_opened(plan@) == (if i < n {
                    i as int
                } else {
                    n - 1
                }),
                n > 0 ==> waits(plan@) == (if i < n {
                    0int
                } else {
                    1int
                }),
            decreases n - i,
        {
            let last = i + 1 == n;
            let stage = StagePlan {
                pipe_to_next: !last,
                capture: self.expansion && last,
                wait: last,
            };
            assert(plan@.push(stage).drop_last() =~= plan@);
            plan.push(stage);
            i += 1;
        }
        plan
    }

    /// Finishes a foreground wait on the last command. `?` becomes the exit
    /// code of a child that ended by itself, and 128 plus the number of the
    /// signal for one that was killed; after any other outcome the variables
    /// stay as they are. The result is the captured output without the line
    /// break at its end, if it ends with one.
    pub fn wait_command(&self, captured: &str, outcome: WaitOutcome, core: &mut ShellCore) -> (out:
        String)
        ensures
            out@ == strip_newline(captured@),
            forall|k: Seq<char>|
                #[trigger] final(core).value_of(k) == (if k == seq!['?'] && status_of(outcome)
                    is Some {
                    status_of(outcome)
                } else {
                    old(core).value_of(k)
                }),
    {
        core.record_wait(outcome);
        let chars = chars_of(captured);
        let n: usize = chars.len();
        if n > 0 && chars[n - 1] == '\n' {
            let kept = slice_of(&chars, 0, n - 1);
            assert(kept@ =~= captured@.drop_last());
            string_of(&kept)
        } else {
            string_of(&chars)
        }
    }
}

} // verus!
