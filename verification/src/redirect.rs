//! One redirection: its operator, its target, and the text it was read from.

use vstd::prelude::*;
use crate::decimal::{parse_number, status_number};
use crate::feeder::Feeder;
use crate::operators::RedirectOp;
use crate::scanner::{
    lemma_run_len,
    lemma_run_len_prefix,
    lemma_run_len_whole,
    redirect_op_at,
    run_len,
    scan_redirect_op,
    scanner_while,
    CharClass,
};
use crate::text::slice_of;

verus! {

pub struct Redirect {
    pub op: RedirectOp,
    /// A path or a descriptor number, as written.
    pub target: Vec<char>,
    pub text: Vec<char>,
}

/// Where the target of a redirection that starts at 0 begins: behind the
/// operator and the blanks that follow it.
pub open spec fn redirect_target_start(s: Seq<char>) -> int {
    let n = redirect_op_at(s, 0).1 as int;
    n + run_len(s, n, CharClass::Blank)
}

/// Length of the redirection that starts `s`: operator, blanks and a target of
/// at least one character; 0 where `s` starts with no such thing.
pub open spec fn redirect_len(s: Seq<char>) -> nat {
    let t = redirect_target_start(s);
    let w = run_len(s, t, CharClass::Word);
    if redirect_op_at(s, 0).1 > 0 && w > 0 {
        (t + w) as nat
    } else {
        0
    }
}

/// How the target of a redirection is opened.
#[derive(Clone, Copy, Debug, PartialEq, Eq, Structural)]
pub enum OpenMode {
    /// For reading.
    Read,
    /// For writing, from an empty file.
    Truncate,
    /// For writing, at the end of what the file holds.
    Append,
    /// For reading and writing.
    ReadWrite,
}

/// What a redirection asks of the process that sets up a command's
/// descriptors.
#[derive(Clone, Copy, Debug, PartialEq, Eq, Structural)]
pub enum RedirectAction {
    /// Open the target and put it in the place of the standard descriptors
    /// that are set.
    Open { mode: OpenMode, stdin: bool, stdout: bool, stderr: bool },
    /// Put a copy of the descriptor `from` in the place of standard output.
    Duplicate { from: i32 },
    /// Nothing: the operator moves no descriptor.
    Nothing,
}

/// What the redirection with this operator and this target asks for. `>` and
/// `>>` write standard output to the target, `&>` and `&>>` standard error
/// too, `<` reads standard input from it, `<>` opens it on standard input for
/// both. `>&` copies the descriptor that the target names or, where it names
/// none, stands for `&>`. A here-document and a here-string move nothing.
pub open spec fn action_of(op: RedirectOp, target: Seq<char>) -> RedirectAction {
    match op {
        RedirectOp::Output => RedirectAction::Open {
            mode: OpenMode::Truncate,
            stdin: false,
            stdout: true,
            stderr: false,
        },
        RedirectOp::Append => RedirectAction::Open {
            mode: OpenMode::Append,
            stdin: false,
            stdout: true,
            stderr: false,
        },
        RedirectOp::AndOutput => RedirectAction::Open {
            mode: OpenMode::Truncate,
            stdin: false,
            stdout: true,
            stderr: true,
        },
        RedirectOp::AndAppend => RedirectAction::Open {
            mode: OpenMode::Append,
            stdin: false,
            stdout: true,
            stderr: true,
        },
        RedirectOp::Input => RedirectAction::Open {
            mode: OpenMode::Read,
            stdin: true,
            stdout: false,
            stderr: false,
        },
        RedirectOp::InOut => RedirectAction::Open {
            mode: OpenMode::ReadWrite,
            stdin: true,
            stdout: false,
            stderr: false,
        },
        RedirectOp::OutputAnd => match status_number(target) {
            Some(fd) => if fd >= 0 {
                RedirectAction::Duplicate { from: fd }
            } else {
                RedirectAction::Open {
                    mode: OpenMode::Truncate,
                    stdin: false,
                    stdout: true,
                    stderr: true,
                }
            },
            None => RedirectAction::Open {
                mode: OpenMode::Truncate,
                stdin: false,
                stdout: true,
                stderr: true,
            },
        },
        RedirectOp::HereDoc => RedirectAction::Nothing,
        RedirectOp::HereStr => RedirectAction::Nothing,
        RedirectOp::NoRedirect => RedirectAction::Nothing,
    }
}

/// A redirection at the start of `s` that ends inside the first `m`
/// characters is the same in those characters alone.
pub proof fn lemma_redirect_prefix(s: Seq<char>, m: int)
    requires
        0 < redirect_len(s) <= m <= s.len(),
    ensures
        redirect_len(s.subrange(0, m)) == redirect_len(s),
        redirect_op_at(s.subrange(0, m), 0) == redirect_op_at(s, 0),
        redirect_target_start(s.subrange(0, m)) == redirect_target_start(s),
{
    let p = s.subrange(0, m);
    let n = redirect_op_at(s, 0).1 as int;
    let t = redirect_target_start(s);
    lemma_run_len(s, n, CharClass::Blank);
    lemma_run_len(s, t, CharClass::Word);
    assert(p[0] == s[0]);
    assert(p[1] == s[1]);
    if m > 2 {
        assert(p[2] == s[2]);
    }
    assert(redirect_op_at(p, 0) == redirect_op_at(s, 0));
    lemma_run_len_prefix(s, m, n, CharClass::Blank);
    lemma_run_len_prefix(s, m, t, CharClass::Word);
}

/// A text that starts with no redirection has none in its first `m`
/// characters alone.
pub proof fn lemma_no_redirect_prefix(s: Seq<char>, m: int)
    requires
        redirect_len(s) == 0,
        0 <= m <= s.len(),
    ensures
        redirect_len(s.subrange(0, m)) == 0,
{
    let p = s.subrange(0, m);
    if redirect_len(p) > 0 {
        let n = redirect_op_at(p, 0).1 as int;
        let t = redirect_target_start(p);
        lemma_run_len(p, n, CharClass::Blank);
        lemma_run_len(p, t, CharClass::Word);
        assert(p[0] == s[0]);
        assert(p[1] == s[1]);
        if m > 2 {
            assert(p[2] == s[2]);
        }
        assert(redirect_op_at(s, 0) == redirect_op_at(p, 0));
        lemma_run_len_whole(s, m, n, CharClass::Blank);
        assert(p[t] == s[t]);
        assert(run_len(s, t, CharClass::Word) >= 1);
    }
}

impl Redirect {
    /// Decides what the redirection asks for.
    pub fn action(&self) -> (a: RedirectAction)
        ensures
            a == action_of(self.op, self.target@),
    {
        let both = RedirectAction::Open {
            mode: OpenMode::Truncate,
            stdin: false,
            stdout: true,
            stderr: true,
        };
        match self.op {
            RedirectOp::Output => RedirectAction::Open {
                mode: OpenMode::Truncate,
                stdin: false,
                stdout: true,
                stderr: false,
            },
            RedirectOp::Append => RedirectAction::Open {
                mode: OpenMode::Append,
                stdin: false,
                stdout: true,
                stderr: false,
            },
            RedirectOp::AndOutput => both,
            RedirectOp::AndAppend => RedirectAction::Open {
                mode: OpenMode::Append,
                stdin: false,
                stdout: true,
                stderr: true,
            },
            RedirectOp::Input => RedirectAction::Open {
                mode: OpenMode::Read,
                stdin: true,
                stdout: false,
                stderr: false,
            },
            RedirectOp::InOut => RedirectAction::Open {
                mode: OpenMode::ReadWrite,
                stdin: true,
                stdout: false,
                stderr: false,
            },
            RedirectOp::OutputAnd => match parse_number(&self.target) {
                Some(fd) => {
                    if fd >= 0 {
                        RedirectAction::Duplicate { from: fd }
                    } else {
                        both
                    }
                },
                None => both,
            },
            _ => RedirectAction::Nothing,
        }
    }


    /// Reads one redirection from the start of the buffer. Without an operator
    /// there, or without a target behind it, nothing is consumed.
    pub fn parse(feeder: &mut Feeder) -> (r: Option<Redirect>)
        ensures
            final(feeder).src() == old(feeder).src(),
            r is Some <==> redirect_len(old(feeder).rem()) > 0,
            r is None ==> final(feeder).rem() == old(feeder).rem(),
            r matches Some(red) ==> {
                let s = old(feeder).rem();
                &&& red.op == redirect_op_at(s, 0).0
                &&& redirect_len(s) <= s.len()
                &&& red.text@ == s.subrange(0, redirect_len(s) as int)
                &&& red.target@ == s.subrange(redirect_target_start(s), redirect_len(s) as int)
                &&& final(feeder).rem() == s.skip(redirect_len(s) as int)
                &&& red.text@ + final(feeder).stream() == old(feeder).stream()
            },
    {
        let total: usize = feeder.len();
        let (op, n) = scan_redirect_op(&feeder.remaining, 0);
        if n == 0 {
            return None;
        }
        let b: usize = scanner_while(&feeder.remaining, n, CharClass::Blank);
        assert(n + b <= total);
        let w: usize = scanner_while(&feeder.remaining, n + b, CharClass::Word);
        proof {
            lemma_run_len(feeder.remaining@, n as int, CharClass::Blank);
            lemma_run_len(feeder.remaining@, n + b, CharClass::Word);
        }
        if w == 0 {
            return None;
        }
        let target = slice_of(&feeder.remaining, n + b, n + b + w);
        let text = feeder.consume(n + b + w);
        Some(Redirect { op, target, text })
    }
}

} // verus!
