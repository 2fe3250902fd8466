//! The script: pipelines one after another, and the blocks of compound
//! commands, which are scripts that a keyword closes.

use vstd::prelude::*;
use crate::brace::{boundary_tail, ends_at_boundary};
use crate::elem_command::command_head_len;
use crate::elem_pipeline::Pipeline;
use crate::feeder::{lemma_first_line_len_bounds, Feeder};
use crate::grammar::{block_end, block_here_end, pipeline_end, pipelines_end, script_end, Pos};
use crate::operators::ControlOperator;
use crate::scanner::{in_class, lemma_run_len, run_len, scanner_while, word_at, CharClass};
use crate::text::{append_chars, slice_of};

verus! {

/// The texts of the pipelines of a list, one after another.
pub open spec fn pipelines_text(list: Seq<Pipeline>) -> Seq<char>
    decreases list.len(),
{
    if list.len() == 0 {
        Seq::empty()
    } else {
        pipelines_text(list.drop_last()) + list.last().text@
    }
}

pub struct Script {
    pub list: Vec<Pipeline>,
    pub text: Vec<char>,
}

/// What the interpreter finds when it reads on at the top level.
pub enum Reading {
    /// A script, which is to be run.
    Script(Script),
    /// Buffered text that starts with no script. It was taken out of the
    /// buffer and is to be reported.
    Rejected(Vec<char>),
    /// A compound command that is not complete with the lines at hand. The
    /// buffer is left as it stands: once the line source has been supplied
    /// with more, reading can be tried again.
    Unfinished,
    /// Nothing: the buffer is empty and the line source is exhausted.
    Exhausted,
}

/// What has to follow a block.
#[derive(Clone, Copy, Debug, PartialEq, Eq, Structural)]
pub enum BlockEnd {
    /// `then`, behind a condition of `if` or `elif`
    Then,
    /// `fi`, `else` or `elif`, behind a branch of `if`
    Branch,
    /// `fi`, behind the branch of `else`
    Fi,
    /// `do`, behind the condition of `while`
    Do,
    /// `done`, behind the body of `while`
    Done,
    /// `}`, behind the script of a brace group
    Brace,
}

/// Whether `s` starts with the word that has to follow a block of this kind.
pub open spec fn closes(s: Seq<char>, end: BlockEnd) -> bool {
    let w = word_at(s, 0);
    match end {
        BlockEnd::Then => w == "then"@,
        BlockEnd::Branch => w == "fi"@ || w == "else"@ || w == "elif"@,
        BlockEnd::Fi => w == "fi"@,
        BlockEnd::Do => w == "do"@,
        BlockEnd::Done => w == "done"@,
        BlockEnd::Brace => w == "}"@,
    }
}

pub fn closes_here(feeder: &Feeder, end: BlockEnd) -> (b: bool)
    ensures
        b == closes(feeder.rem(), end),
{
    match end {
        BlockEnd::Then => feeder.at_word(0, "then"),
        BlockEnd::Branch => feeder.at_word(0, "fi") || feeder.at_word(0, "else") || feeder.at_word(
            0,
            "elif",
        ),
        BlockEnd::Fi => feeder.at_word(0, "fi"),
        BlockEnd::Do => feeder.at_word(0, "do"),
        BlockEnd::Done => feeder.at_word(0, "done"),
        BlockEnd::Brace => feeder.at_word(0, "}"),
    }
}

/// Whether `ws` holds white space only.
pub open spec fn all_space(ws: Seq<char>) -> bool {
    forall|i: int| 0 <= i < ws.len() ==> in_class(CharClass::Space, #[trigger] ws[i])
}

impl Script {
    /// The script holds a pipeline, and its text is the text of its pipelines.
    pub open spec fn well_formed(&self) -> bool {
        &&& self.list@.len() > 0
        &&& self.text@ == pipelines_text(self.list@)
    }

    /// The script is well formed, and so is everything under it.
    pub open spec fn sound(&self) -> bool
        decreases self,
    {
        &&& self.well_formed()
        &&& forall|i: int| 0 <= i < self.list@.len() ==> (#[trigger] self.list@[i]).sound()
    }

    /// Reads pipelines for as long as each is ended by an operator and another
    /// one follows. Where not even one pipeline stands at the start, nothing
    /// is consumed.
    pub fn parse(feeder: &mut Feeder) -> (r: Option<Script>)
        ensures
            r is None ==> final(feeder).same_as(old(feeder)),
            command_head_len(old(feeder).rem()) > 0 ==> r is Some,
            r is Some <==> script_end(old(feeder).pos()) is Some,
            r matches Some(sc) ==> {
                &&& final(feeder).pos() == script_end(old(feeder).pos())->0
                &&& sc.text@ + final(feeder).stream() == old(feeder).stream()
                &&& sc.text@.len() > 0
                &&& sc.sound()
            },
        decreases old(feeder).stream().len(), 4int,
    {
        let mut ans = Script { list: Vec::new(), text: Vec::new() };
        let mut open: bool = true;
        assert(ans.text@ + feeder.stream() =~= feeder.stream());
        while open
            invariant
                ans.text@ + feeder.stream() == old(feeder).stream(),
                ans.text@ == pipelines_text(ans.list@),
                forall|i: int| 0 <= i < ans.list@.len() ==> (#[trigger] ans.list@[i]).sound(),
                ans.list@.len() == 0 ==> ans.text@.len() == 0 && feeder.same_as(old(feeder)),
                ans.list@.len() > 0 ==> ans.text@.len() > 0,
                !open ==> (ans.list@.len() == 0 ==> command_head_len(old(feeder).rem()) == 0),
                pipelines_end(old(feeder).pos()) == (if open {
                    pipelines_end(feeder.pos())
                } else {
                    feeder.pos()
                }),
                ans.list@.len() > 0 ==> pipeline_end(old(feeder).pos()) is Some,
                ans.list@.len() == 0 ==> feeder.pos() == old(feeder).pos(),
                !open && ans.list@.len() == 0 ==> pipeline_end(old(feeder).pos()) is None,
            decreases feeder.stream().len() + (if open { 1int } else { 0int }),
        {
            let ghost text_before = ans.text@;
            match Pipeline::parse(feeder) {
                Some(p) => {
                    open = p.last_eoc() != ControlOperator::NoChar;
                    append_chars(&mut ans.text, &p.text);
                    proof {
                        assert(ans.list@.push(p).drop_last() =~= ans.list@);
                        assert(ans.text@ + feeder.stream() =~= text_before + (p.text@
                            + feeder.stream()));
                    }
                    ans.list.push(p);
                },
                None => {
                    open = false;
                },
            }
        }
        if ans.list.len() > 0 {
            Some(ans)
        } else {
            None
        }
    }
}

/// Where reading starts at the top level: where the cursor stands, or, with
/// an empty buffer, there after one more line has come.
pub open spec fn reading_start(p: Pos) -> Pos {
    if p.rem.len() == 0 {
        p.acquire()
    } else {
        p
    }
}

/// Whether `s` starts, behind white space, with a word that opens a compound
/// command.
pub open spec fn opens_compound(s: Seq<char>) -> bool {
    let w = word_at(s, run_len(s, 0, CharClass::Space) as int);
    w == "if"@ || w == "while"@ || w == "{"@
}

/// Reads on at the top level. An empty buffer is filled with one more line
/// first. Then a script is read. Where the buffer starts with none, it
/// either starts with a compound command that more lines may complete, and
/// is left as it stands, or all of it is taken out and handed back.
pub fn read_next(feeder: &mut Feeder) -> (r: Reading)
    ensures
        match r {
            Reading::Exhausted => old(feeder).stream().len() == 0 && final(feeder).same_as(
                old(feeder),
            ),
            Reading::Script(sc) => {
                &&& old(feeder).stream().len() > 0
                &&& script_end(reading_start(old(feeder).pos())) == Some(final(feeder).pos())
                &&& sc.text@ + final(feeder).stream() == old(feeder).stream()
                &&& sc.text@.len() > 0
                &&& sc.sound()
            },
            Reading::Unfinished => {
                &&& old(feeder).stream().len() > 0
                &&& script_end(reading_start(old(feeder).pos())) is None
                &&& opens_compound(reading_start(old(feeder).pos()).rem)
                &&& final(feeder).pos() == reading_start(old(feeder).pos())
            },
            Reading::Rejected(text) => {
                &&& old(feeder).stream().len() > 0
                &&& script_end(reading_start(old(feeder).pos())) is None
                &&& !opens_compound(reading_start(old(feeder).pos()).rem)
                &&& text@ == reading_start(old(feeder).pos()).rem
                &&& text@.len() > 0
                &&& final(feeder).rem().len() == 0
                &&& final(feeder).src() == reading_start(old(feeder).pos()).src
            },
        },
{
    if feeder.len() == 0 {
        proof {
            lemma_first_line_len_bounds(feeder.src());
        }
        if !feeder.acquire_more_input() {
            return Reading::Exhausted;
        }
    }
    let ghost start = feeder.pos();
    assert(start == reading_start(old(feeder).pos()));
    match Script::parse(feeder) {
        Some(sc) => Reading::Script(sc),
        None => {
            let lead: usize = scanner_while(&feeder.remaining, 0, CharClass::Space);
            proof {
                lemma_run_len(feeder.rem(), 0, CharClass::Space);
            }
            if feeder.at_word(lead, "if") || feeder.at_word(lead, "while") || feeder.at_word(
                lead,
                "{",
            ) {
                return Reading::Unfinished;
            }
            let n: usize = feeder.len();
            let text = feeder.consume(n);
            assert(text@ =~= start.rem);
            Reading::Rejected(text)
        },
    }
}

/// Reads a block: a script, the white space behind it, and then, not
/// consumed, what has to follow a block of this kind. The script of a brace
/// group must also end at a statement boundary. While the buffer holds no
/// such block, the cursor is put back, one more line is asked for and the
/// attempt is made again; where no line comes, the cursor is put back to
/// where it was at the start.
pub fn parse_block(feeder: &mut Feeder, end: BlockEnd) -> (r: Option<(Script, Vec<char>)>)
    ensures
        r is None ==> final(feeder).same_as(old(feeder)),
        r is Some <==> block_end(old(feeder).pos(), end) is Some,
        r matches Some(b) ==> {
            &&& final(feeder).pos() == block_end(old(feeder).pos(), end)->0
            &&& b.0.text@ + b.1@ + final(feeder).stream() == old(feeder).stream()
            &&& b.0.text@.len() > 0
            &&& b.0.sound()
            &&& all_space(b.1@)
            &&& closes(final(feeder).rem(), end)
            &&& end == BlockEnd::Brace ==> ends_at_boundary(b.0.text@ + b.1@)
        },
    decreases old(feeder).stream().len(), 5int,
{
    let entry = feeder.snapshot();
    loop
        invariant
            feeder.stream() == old(feeder).stream(),
            entry.same_as(old(feeder)),
            block_end(feeder.pos(), end) == block_end(old(feeder).pos(), end),
        decreases feeder.src().len(),
    {
        let backup = feeder.snapshot();
        let ghost cur = feeder.pos();
        match Script::parse(feeder) {
            Some(sc) => {
                let ghost q = feeder.pos();
                let d: usize = scanner_while(&feeder.remaining, 0, CharClass::Space);
                proof {
                    lemma_run_len(feeder.rem(), 0, CharClass::Space);
                }
                let ws = feeder.consume(d);
                let ghost a = feeder.pos();
                proof {
                    assert(sc.text@ + ws@ + feeder.stream() =~= sc.text@ + (ws@
                        + feeder.stream()));
                    assert(a == q.advance(d as int));
                    assert(cur.span_to(a) =~= sc.text@ + ws@);
                    assert(a.total() <= cur.total());
                }
                let closed = closes_here(feeder, end);
                let bounded = if closed && end == BlockEnd::Brace {
                    let mut inner = slice_of(&sc.text, 0, sc.text.len());
                    append_chars(&mut inner, &ws);
                    assert(inner@ =~= sc.text@ + ws@);
                    boundary_tail(&inner)
                } else {
                    true
                };
                if closed && bounded {
                    assert(block_here_end(cur, end) == Some(a));
                    return Some((sc, ws));
                }
                assert(block_here_end(cur, end) is None);
            },
            None => {
                assert(block_here_end(cur, end) is None);
            },
        }
        assert(block_here_end(cur, end) is None);
        feeder.rewind(backup);
        assert(feeder.pos() == cur);
        let got = feeder.acquire_more_input();
        assert(feeder.pos() == cur.acquire());
        if !got {
            feeder.rewind(entry);
            return None;
        }
    }
}

} // verus!
