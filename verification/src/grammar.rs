//! The grammar, as functions on what is still to be read: for each construct,
//! whether the input starts with one and where it ends.

use vstd::prelude::*;
use crate::brace::ends_at_boundary;
use crate::elem_command::{command_body_len, command_head_len, command_len};
use crate::feeder::first_line_len;
use crate::items::items_len;
use crate::operators::ControlOperator;
use crate::scanner::{control_at, run_len, word_at, CharClass};
use crate::script::{closes, BlockEnd};

verus! {

/// A place in the input: the buffered text from there on, and what the line
/// source still holds.
pub struct Pos {
    pub rem: Seq<char>,
    pub src: Seq<char>,
}

impl Pos {
    /// Everything that is still to be read from here.
    pub open spec fn stream(self) -> Seq<char> {
        self.rem + self.src
    }

    /// Number of characters that are still to be read.
    pub open spec fn total(self) -> nat {
        self.rem.len() + self.src.len()
    }

    /// The place `n` buffered characters further on.
    pub open spec fn advance(self, n: int) -> Pos {
        Pos { rem: self.rem.skip(n), src: self.src }
    }

    /// The same place with one more line in the buffer.
    pub open spec fn acquire(self) -> Pos {
        let n = first_line_len(self.src) as int;
        Pos { rem: self.rem + self.src.subrange(0, n), src: self.src.skip(n) }
    }

    /// The text between this place and the later place `end`.
    pub open spec fn span_to(self, end: Pos) -> Seq<char> {
        self.stream().subrange(0, self.total() - end.total())
    }
}

/// Where redirections and the closing operator behind a compound command
/// end, and that operator.
pub open spec fn tail_end(p: Pos) -> (Pos, ControlOperator) {
    let q = p.advance(items_len(p.rem) as int);
    let c = control_at(q.rem, 0);
    (q.advance(c.1 as int), c.0)
}

/// The simple command at `p`: where it ends, and the operator that ends it.
pub open spec fn simple_end(p: Pos) -> Option<(Pos, ControlOperator)> {
    if command_head_len(p.rem) > 0 {
        Some(
            (
                p.advance(command_len(p.rem) as int),
                control_at(p.rem.skip(command_body_len(p.rem) as int), 0).0,
            ),
        )
    } else {
        None
    }
}

/// The script at `p`: where it ends. A script is a pipeline, followed by more
/// pipelines for as long as each is ended by an operator.
pub open spec fn script_end(p: Pos) -> Option<Pos>
    decreases p.total(), 4int, 1int,
{
    if pipeline_end(p) is Some {
        Some(pipelines_end(p))
    } else {
        None
    }
}

/// Where the pipelines that start at `p` end; `p` itself where none starts
/// there.
pub open spec fn pipelines_end(p: Pos) -> Pos
    decreases p.total(), 4int, 0int,
{
    match pipeline_end(p) {
        None => p,
        Some((q, eoc)) => if eoc != ControlOperator::NoChar && q.total() < p.total() {
            pipelines_end(q)
        } else {
            q
        },
    }
}

/// The pipeline at `p`: where it ends, and the operator that ends its last
/// command. A pipeline is a command, followed by more commands for as long as
/// each is ended by `|`.
pub open spec fn pipeline_end(p: Pos) -> Option<(Pos, ControlOperator)>
    decreases p.total(), 3int, 1int,
{
    if command_end(p) is Some {
        Some(commands_end(p, ControlOperator::NoChar))
    } else {
        None
    }
}

/// Where the commands that start at `p` end, and the operator that ends the
/// last of them; `p` and `before` where none starts there.
pub open spec fn commands_end(p: Pos, before: ControlOperator) -> (Pos, ControlOperator)
    decreases p.total(), 3int, 0int,
{
    match command_end(p) {
        None => (p, before),
        Some((q, eoc)) => if eoc == ControlOperator::Pipe && q.total() < p.total() {
            commands_end(q, eoc)
        } else {
            (q, eoc)
        },
    }
}

/// The command at `p`: an `if`, a `while`, a brace group or a simple command,
/// the first of them that stands there.
pub open spec fn command_end(p: Pos) -> Option<(Pos, ControlOperator)>
    decreases p.total(), 2int, 0int,
{
    if if_end(p) is Some {
        if_end(p)
    } else if while_end(p) is Some {
        while_end(p)
    } else if brace_end(p) is Some {
        brace_end(p)
    } else {
        simple_end(p)
    }
}

/// Where the word `keyword` that leads a compound command at `p` ends; none
/// where the first word at `p` is another.
pub open spec fn keyword_end(p: Pos, keyword: Seq<char>) -> Option<Pos> {
    let lead = run_len(p.rem, 0, CharClass::Space) as int;
    if lead <= p.rem.len() && word_at(p.rem, lead) == keyword {
        Some(p.advance(lead + keyword.len()))
    } else {
        None
    }
}

/// The `if` command at `p`.
pub open spec fn if_end(p: Pos) -> Option<(Pos, ControlOperator)>
    decreases p.total(), 1int, 0int,
{
    match keyword_end(p, "if"@) {
        Some(q) => if q.total() < p.total() {
            match if_pairs_end(q) {
                Some(e) => Some(tail_end(e)),
                None => None,
            }
        } else {
            None
        },
        None => None,
    }
}

/// The pairs of condition and branch from `p` on, the branch of `else` where
/// there is one, and `fi`: where they end.
pub open spec fn if_pairs_end(p: Pos) -> Option<Pos>
    decreases p.total(), 7int, 0int,
{
    match pair_end(p) {
        Some(q) => {
            let w = word_at(q.rem, 0);
            if q.total() >= p.total() {
                None
            } else if w == "fi"@ {
                Some(q.advance("fi"@.len() as int))
            } else if w == "elif"@ && q.advance("elif"@.len() as int).total() < p.total() {
                if_pairs_end(q.advance("elif"@.len() as int))
            } else if w == "else"@ && q.advance("else"@.len() as int).total() < p.total() {
                else_fi_end(q.advance("else"@.len() as int))
            } else {
                None
            }
        },
        None => None,
    }
}

/// A condition, `then` and a branch: where the branch ends.
pub open spec fn pair_end(p: Pos) -> Option<Pos>
    decreases p.total(), 6int, 0int,
{
    match block_end(p, BlockEnd::Then) {
        Some(a) => if a.advance("then"@.len() as int).total() < p.total() {
            block_end(a.advance("then"@.len() as int), BlockEnd::Branch)
        } else {
            None
        },
        None => None,
    }
}

/// The branch of `else` and `fi`: where they end.
pub open spec fn else_fi_end(p: Pos) -> Option<Pos>
    decreases p.total(), 6int, 0int,
{
    match block_end(p, BlockEnd::Fi) {
        Some(a) => Some(a.advance("fi"@.len() as int)),
        None => None,
    }
}

/// The `while` loop at `p`.
pub open spec fn while_end(p: Pos) -> Option<(Pos, ControlOperator)>
    decreases p.total(), 1int, 0int,
{
    match keyword_end(p, "while"@) {
        Some(q) => if q.total() < p.total() {
            match cond_do_end(q) {
                Some(e) => Some(tail_end(e.advance("done"@.len() as int))),
                None => None,
            }
        } else {
            None
        },
        None => None,
    }
}

/// A condition, `do` and a body: where the body ends.
pub open spec fn cond_do_end(p: Pos) -> Option<Pos>
    decreases p.total(), 6int, 0int,
{
    match block_end(p, BlockEnd::Do) {
        Some(a) => if a.advance("do"@.len() as int).total() < p.total() {
            block_end(a.advance("do"@.len() as int), BlockEnd::Done)
        } else {
            None
        },
        None => None,
    }
}

/// The brace group at `p`.
pub open spec fn brace_end(p: Pos) -> Option<(Pos, ControlOperator)>
    decreases p.total(), 1int, 0int,
{
    match keyword_end(p, "{"@) {
        Some(q) => if q.total() < p.total() {
            match block_end(q, BlockEnd::Brace) {
                Some(e) => Some(tail_end(e.advance("}"@.len() as int))),
                None => None,
            }
        } else {
            None
        },
        None => None,
    }
}

/// Where the `fi` of the `if` command at `p` ends.
pub open spec fn if_body_end(p: Pos) -> Option<Pos> {
    match keyword_end(p, "if"@) {
        Some(q) => if_pairs_end(q),
        None => None,
    }
}

/// Where the `done` of the `while` loop at `p` ends.
pub open spec fn while_body_end(p: Pos) -> Option<Pos> {
    match keyword_end(p, "while"@) {
        Some(q) => match cond_do_end(q) {
            Some(e) => Some(e.advance("done"@.len() as int)),
            None => None,
        },
        None => None,
    }
}

/// Where the `}` of the brace group at `p` ends.
pub open spec fn brace_body_end(p: Pos) -> Option<Pos> {
    match keyword_end(p, "{"@) {
        Some(q) => match block_end(q, BlockEnd::Brace) {
            Some(e) => Some(e.advance("}"@.len() as int)),
            None => None,
        },
        None => None,
    }
}

/// The block at `p` as the buffer stands: a script and the white space
/// behind it, where the word that closes the block follows them and, for a
/// brace group, the two end at a statement boundary.
pub open spec fn block_here_end(p: Pos, end: BlockEnd) -> Option<Pos>
    decreases p.total(), 5int, 0int,
{
    match script_end(p) {
        Some(q) => {
            let a = q.advance(run_len(q.rem, 0, CharClass::Space) as int);
            if a.total() <= p.total() && closes(a.rem, end) && (end == BlockEnd::Brace
                ==> ends_at_boundary(p.span_to(a))) {
                Some(a)
            } else {
                None
            }
        },
        None => None,
    }
}

/// The block at `p`: the one that the buffer holds, or else the one that it
/// holds once more lines have come, the fewest that will do.
pub open spec fn block_end(p: Pos, end: BlockEnd) -> Option<Pos>
    decreases p.total(), 5int, 1 + p.src.len(),
{
    if block_here_end(p, end) is Some {
        block_here_end(p, end)
    } else if p.src.len() > 0 && p.acquire().total() == p.total() && p.acquire().src.len()
        < p.src.len() {
        block_end(p.acquire(), end)
    } else {
        None
    }
}

} // verus!
