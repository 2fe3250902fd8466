//! The `if` command: conditions with their branches, and a branch for the
//! case that no condition holds.

use vstd::prelude::*;
use nix::unistd::Pid;
use crate::feeder::Feeder;
use crate::file_descs::FileDescs;
use crate::grammar::{else_fi_end, if_body_end, if_end, if_pairs_end, pair_end};
use crate::items::{
    items_redirects,
    lemma_tail_in_own_text,
    parse_redirects,
    redirects_view,
    tail_holds,
    tail_len,
};
use crate::operators::{control_text, ControlOperator};
use crate::process::ExecMode;
use crate::scanner::{
    lemma_lead_in_own_text,
    lemma_run_len,
    run_len,
    scan_control,
    scanner_while,
    word_at,
    CharClass,
};
use crate::script::{all_space, closes, parse_block, BlockEnd, Script};
use crate::shell_core::ShellCore;
use crate::text::{append_chars, string_of};

verus! {

/// `longer` is `shorter` followed by the text of the condition, white
/// space, `then`, the text of the branch and white space.
pub open spec fn pair_added(shorter: Seq<char>, longer: Seq<char>, pair: (Script, Script)) -> bool {
    exists|ws1: Seq<char>, ws2: Seq<char>|
        all_space(ws1) && all_space(ws2) && longer == #[trigger] (shorter + pair.0.text@ + ws1
            + "then"@ + pair.1.text@ + ws2)
}

/// `longer` is `shorter` followed by the text of the branch, white space and
/// `fi`.
pub open spec fn else_added(shorter: Seq<char>, longer: Seq<char>, branch: Script) -> bool {
    exists|ws: Seq<char>|
        all_space(ws) && longer == #[trigger] (shorter + branch.text@ + ws + "fi"@)
}

/// `t` is the text of the pairs, each as `pair_added` has it, with `elif`
/// between them, and behind the last of them `fi`, or `else` with the branch
/// as `else_added` has it.
pub open spec fn pairs_spell(pairs: Seq<(Script, Script)>, else_do: Option<Script>, t: Seq<char>) -> bool
    decreases pairs.len(),
{
    pairs.len() > 0 && exists|first: Seq<char>|
        pair_added(Seq::empty(), first, pairs[0]) && (#[trigger] first.is_prefix_of(t)) && {
            let rest = t.skip(first.len() as int);
            if pairs.len() > 1 {
                "elif"@.is_prefix_of(rest) && pairs_spell(
                    pairs.drop_first(),
                    else_do,
                    rest.skip("elif"@.len() as int),
                )
            } else {
                match else_do {
                    None => rest == "fi"@,
                    Some(branch) => else_added("else"@, rest, branch),
                }
            }
        }
}

/// A pair that was added behind `shorter` is a pair added behind nothing,
/// once `shorter` is taken off.
pub proof fn lemma_pair_alone(shorter: Seq<char>, longer: Seq<char>, pair: (Script, Script))
    requires
        pair_added(shorter, longer, pair),
    ensures
        shorter.is_prefix_of(longer),
        pair_added(Seq::empty(), longer.skip(shorter.len() as int), pair),
        longer == shorter + longer.skip(shorter.len() as int),
{
    let (ws1, ws2) = choose|ws1: Seq<char>, ws2: Seq<char>|
        all_space(ws1) && all_space(ws2) && longer == #[trigger] (shorter + pair.0.text@ + ws1
            + "then"@ + pair.1.text@ + ws2);
    let alone = Seq::<char>::empty() + pair.0.text@ + ws1 + "then"@ + pair.1.text@ + ws2;
    assert(longer.skip(shorter.len() as int) =~= alone);
    assert(longer =~= shorter + alone);
    assert(shorter =~= longer.subrange(0, shorter.len() as int));
}

/// Three texts in a row that start `whole` can be taken off one by one.
pub proof fn lemma_nested_prefix(a: Seq<char>, b: Seq<char>, c: Seq<char>, whole: Seq<char>)
    requires
        (a + b + c).is_prefix_of(whole),
    ensures
        a.is_prefix_of(whole),
        b.is_prefix_of(whole.skip(a.len() as int)),
        c.is_prefix_of(whole.skip(a.len() as int).skip(b.len() as int)),
        whole.skip(a.len() as int).skip(b.len() as int).skip(c.len() as int) == whole.skip(
            (a + b + c).len() as int,
        ),
{
    let abc = a + b + c;
    assert(abc == whole.subrange(0, abc.len() as int));
    assert(a =~= whole.subrange(0, a.len() as int)) by {
        assert forall|i: int| 0 <= i < a.len() implies a[i] == whole[i] by {
            assert(abc[i] == a[i]);
        }
    }
    let w1 = whole.skip(a.len() as int);
    assert(b =~= w1.subrange(0, b.len() as int)) by {
        assert forall|i: int| 0 <= i < b.len() implies b[i] == w1[i] by {
            assert(abc[a.len() + i] == b[i]);
        }
    }
    let w2 = w1.skip(b.len() as int);
    assert(c =~= w2.subrange(0, c.len() as int)) by {
        assert forall|i: int| 0 <= i < c.len() implies c[i] == w2[i] by {
            assert(abc[a.len() + b.len() + i] == c[i]);
        }
    }
    assert(w2.skip(c.len() as int) =~= whole.skip(abc.len() as int));
}

/// Pairs that stay when one more is added, and stay again behind that one,
/// have stayed all along.
pub proof fn lemma_pairs_kept(
    first: Seq<(Script, Script)>,
    second: Seq<(Script, Script)>,
    third: Seq<(Script, Script)>,
)
    requires
        second == first.push(second.last()),
        second.len() <= third.len(),
        third.subrange(0, second.len() as int) == second,
    ensures
        third.subrange(0, first.len() as int) == first,
        third.skip(first.len() as int)[0] == second.last(),
        third.skip(first.len() as int).drop_first() == third.skip(second.len() as int),
{
    let n = first.len() as int;
    assert(second.len() == n + 1);
    assert(third.subrange(0, n) =~= first) by {
        assert forall|i: int| 0 <= i < n implies third[i] == first[i] by {
            assert(third.subrange(0, n + 1)[i] == second[i]);
        }
    }
    assert(third.subrange(0, n + 1)[n] == second[n]);
    assert(third.skip(n).drop_first() =~= third.skip(n + 1));
}

/// The branch of `else` that was added behind a pair and `else` is, once
/// the text before the pair is taken off, what follows the pair.
pub proof fn lemma_else_alone(
    before: Seq<char>,
    first: Seq<char>,
    upto: Seq<char>,
    whole: Seq<char>,
    branch: Script,
)
    requires
        upto == before + first + "else"@,
        else_added(upto, whole, branch),
    ensures
        before.is_prefix_of(whole),
        first.is_prefix_of(whole.skip(before.len() as int)),
        else_added("else"@, whole.skip(before.len() as int).skip(first.len() as int), branch),
{
    let ws = choose|ws: Seq<char>|
        all_space(ws) && whole == #[trigger] (upto + branch.text@ + ws + "fi"@);
    let rest = "else"@ + branch.text@ + ws + "fi"@;
    assert(whole =~= before + first + rest);
    assert(before =~= whole.subrange(0, before.len() as int));
    let w1 = whole.skip(before.len() as int);
    assert(w1 =~= first + rest);
    assert(first =~= w1.subrange(0, first.len() as int));
    assert(w1.skip(first.len() as int) =~= rest);
}

pub struct CommandIf {
    pub ifthen: Vec<(Script, Script)>,
    pub else_do: Option<Script>,
    pub text: Vec<char>,
    pub pid: Option<Pid>,
    pub fds: FileDescs,
    pub group_leader: bool,
    /// The operator that ended the command, `NoChar` where none did.
    pub eoc: ControlOperator,
}

impl CommandIf {
    /// Every condition and every branch is a well-formed script, all the way
    /// down.
    pub open spec fn scripts_sound(&self) -> bool
        decreases self,
    {
        &&& forall|i: int|
            0 <= i < self.ifthen@.len() ==> (#[trigger] self.ifthen@[i]).0.sound()
                && self.ifthen@[i].1.sound()
        &&& self.else_do matches Some(sc) ==> sc.sound()
    }

    /// The command is what its own text spells, and every condition and
    /// every branch is a well-formed script, all the way down.
    pub open spec fn sound(&self) -> bool
        decreases self,
    {
        &&& self.spells(self.text@)
        &&& forall|i: int|
            0 <= i < self.ifthen@.len() ==> (#[trigger] self.ifthen@[i]).0.sound()
                && self.ifthen@[i].1.sound()
        &&& self.else_do matches Some(sc) ==> sc.sound()
    }

    /// The text of the command is the white space that leads `s`, `if`, the
    /// pairs and the branch of `else` as `pairs_spell` has them, and then the
    /// command's redirections and its closing operator.
    pub open spec fn spells(&self, s: Seq<char>) -> bool {
        exists|body: Seq<char>, tail: Seq<char>|
            pairs_spell(self.ifthen@, self.else_do, body) && tail_holds(
                tail,
                self.fds.redirects@,
                self.eoc,
            ) && self.text@ == #[trigger] (s.subrange(0, run_len(s, 0, CharClass::Space) as int)
                + "if"@ + body + tail)
    }

    /// A command without branches, with no text, no connection and no process.
    pub fn new() -> (c: CommandIf)
        ensures
            c.ifthen@.len() == 0,
            c.else_do is None,
            c.text@.len() == 0,
            c.pid is None,
            c.fds.unconnected(),
            !c.group_leader,
            c.eoc == ControlOperator::NoChar,
    {
        CommandIf {
            ifthen: Vec::new(),
            else_do: None,
            text: Vec::new(),
            pid: None,
            fds: FileDescs::new(),
            group_leader: false,
            eoc: ControlOperator::NoChar,
        }
    }

    /// Reads a condition, `then` and a branch, up to the `fi`, `else` or `elif`
    /// behind it, which is not consumed. The pair goes to the end of the
    /// command's branches, what was read to the end of its text. On failure
    /// the cursor is back where it was and the command is as it was.
    pub fn parse_if_then_pair(feeder: &mut Feeder, ans: &mut CommandIf) -> (ok: bool)
        ensures
            !ok ==> final(feeder).same_as(old(feeder)),
            !ok ==> *final(ans) == *old(ans),
            ok <==> pair_end(old(feeder).pos()) is Some,
            ok ==> {
                &&& final(feeder).pos() == pair_end(old(feeder).pos())->0
                &&& final(ans).text@ + final(feeder).stream() == old(ans).text@ + old(
                    feeder,
                ).stream()
                &&& final(ans).ifthen@.len() == old(ans).ifthen@.len() + 1
                &&& final(ans).ifthen@ == old(ans).ifthen@.push(final(ans).ifthen@.last())
                &&& pair_added(old(ans).text@, final(ans).text@, final(ans).ifthen@.last())
                &&& old(ans).scripts_sound() ==> final(ans).scripts_sound()
                &&& final(feeder).stream().len() < old(feeder).stream().len()
                &&& closes(final(feeder).rem(), BlockEnd::Branch)
            },
            final(ans).else_do == old(ans).else_do,
            final(ans).pid == old(ans).pid,
            final(ans).fds == old(ans).fds,
            final(ans).group_leader == old(ans).group_leader,
            final(ans).eoc == old(ans).eoc,
        decreases old(feeder).stream().len(), 6int,
    {
        let entry = feeder.snapshot();
        let (cond, ws) = match parse_block(feeder, BlockEnd::Then) {
            Some(b) => b,
            None => {
                return false;
            },
        };
        let word = match feeder.accept(0, "then") {
            Some(t) => t,
            None => {
                feeder.rewind(entry);
                return false;
            },
        };
        proof {
            reveal_strlit("then");
        }
        let (doing, ws2) = match parse_block(feeder, BlockEnd::Branch) {
            Some(b) => b,
            None => {
                feeder.rewind(entry);
                return false;
            },
        };
        append_chars(&mut ans.text, &cond.text);
        append_chars(&mut ans.text, &ws);
        append_chars(&mut ans.text, &word);
        append_chars(&mut ans.text, &doing.text);
        append_chars(&mut ans.text, &ws2);
        proof {
            assert(ans.text@ + feeder.stream() =~= old(ans).text@ + (cond.text@ + ws@ + (word@ + (
            doing.text@ + ws2@ + feeder.stream()))));
        }
        ans.ifthen.push((cond, doing));
        proof {
            assert(word@ == "then"@);
            let pair = ans.ifthen@.last();
            assert(all_space(ws@) && all_space(ws2@) && ans.text@ == old(ans).text@
                + pair.0.text@ + ws@ + "then"@ + pair.1.text@ + ws2@);
        }
        true
    }

    /// Reads the branch of `else` and the `fi` behind it. On failure the
    /// cursor is back where it was and the command is as it was.
    pub fn parse_else_fi(feeder: &mut Feeder, ans: &mut CommandIf) -> (ok: bool)
        ensures
            !ok ==> final(feeder).same_as(old(feeder)),
            !ok ==> *final(ans) == *old(ans),
            ok <==> else_fi_end(old(feeder).pos()) is Some,
            ok ==> {
                &&& final(feeder).pos() == else_fi_end(old(feeder).pos())->0
                &&& final(ans).text@ + final(feeder).stream() == old(ans).text@ + old(
                    feeder,
                ).stream()
                &&& final(ans).text@.len() >= old(ans).text@.len()
                &&& final(ans).else_do matches Some(branch) && else_added(
                    old(ans).text@,
                    final(ans).text@,
                    branch,
                )
                &&& old(ans).scripts_sound() ==> final(ans).scripts_sound()
            },
            final(ans).ifthen == old(ans).ifthen,
            final(ans).pid == old(ans).pid,
            final(ans).fds == old(ans).fds,
            final(ans).group_leader == old(ans).group_leader,
            final(ans).eoc == old(ans).eoc,
        decreases old(feeder).stream().len(), 6int,
    {
        let entry = feeder.snapshot();
        let (doing, ws) = match parse_block(feeder, BlockEnd::Fi) {
            Some(b) => b,
            None => {
                return false;
            },
        };
        let word = match feeder.accept(0, "fi") {
            Some(t) => t,
            None => {
                feeder.rewind(entry);
                return false;
            },
        };
        append_chars(&mut ans.text, &doing.text);
        append_chars(&mut ans.text, &ws);
        append_chars(&mut ans.text, &word);
        proof {
            assert(ans.text@ + feeder.stream() =~= old(ans).text@ + (doing.text@ + ws@ + (word@
                + feeder.stream())));
        }
        ans.else_do = Some(doing);
        proof {
            assert(word@ == "fi"@);
            assert(all_space(ws@) && ans.text@ == old(ans).text@ + doing.text@ + ws@ + "fi"@);
        }
        true
    }

    /// Reads one pair of condition and branch for the `if` and for each `elif`
    /// that follows, the branch of `else` where one stands, and `fi`. On
    /// failure the cursor is back where it was and the command is as it was.
    pub fn parse_pairs(feeder: &mut Feeder, ans: &mut CommandIf) -> (ok: bool)
        ensures
            !ok ==> final(feeder).same_as(old(feeder)),
            !ok ==> final(ans).ifthen@ == old(ans).ifthen@ && final(ans).text@ == old(ans).text@
                && final(ans).else_do == old(ans).else_do,
            ok <==> if_pairs_end(old(feeder).pos()) is Some,
            ok ==> {
                &&& final(feeder).pos() == if_pairs_end(old(feeder).pos())->0
                &&& final(ans).text@ + final(feeder).stream() == old(ans).text@ + old(
                    feeder,
                ).stream()
                &&& final(ans).text@.len() >= old(ans).text@.len()
                &&& final(ans).ifthen@.len() >= old(ans).ifthen@.len() + 1
                &&& final(ans).ifthen@.subrange(0, old(ans).ifthen@.len() as int) == old(
                    ans,
                ).ifthen@
                &&& old(ans).text@.is_prefix_of(final(ans).text@)
                &&& old(ans).else_do is None ==> pairs_spell(
                    final(ans).ifthen@.skip(old(ans).ifthen@.len() as int),
                    final(ans).else_do,
                    final(ans).text@.skip(old(ans).text@.len() as int),
                )
                &&& old(ans).scripts_sound() ==> final(ans).scripts_sound()
            },
            final(ans).pid == old(ans).pid,
            final(ans).fds == old(ans).fds,
            final(ans).group_leader == old(ans).group_leader,
            final(ans).eoc == old(ans).eoc,
        decreases old(feeder).stream().len(), 7int,
    {
        let entry = feeder.snapshot();
        let ghost start = feeder.pos();
        let pairs_before: usize = ans.ifthen.len();
        let text_before: usize = ans.text.len();
        if !CommandIf::parse_if_then_pair(feeder, ans) {
            return false;
        }
        let ghost q = feeder.pos();
        let ghost text_q = ans.text@;
        let ghost text_0 = old(ans).text@;
        let ghost k = old(ans).ifthen@.len() as int;
        let ghost pair = ans.ifthen@.last();
        let ghost first = text_q.skip(text_0.len() as int);
        proof {
            assert(q.total() < start.total());
            assert(ans.ifthen@.subrange(0, k) =~= old(ans).ifthen@);
            lemma_pair_alone(text_0, text_q, pair);
        }
        if let Some(t) = feeder.accept(0, "fi") {
            append_chars(&mut ans.text, &t);
            proof {
                assert(ans.text@ + feeder.stream() =~= text_q + (t@ + feeder.stream()));
                assert(ans.text@ =~= text_0 + first + "fi"@);
                lemma_nested_prefix(text_0, first, "fi"@, ans.text@);
                assert(ans.ifthen@.skip(k) =~= seq![pair]);
                let whole = ans.text@.skip(text_0.len() as int);
                assert(whole.skip(first.len() as int) =~= "fi"@);
            }
            return true;
        }
        if let Some(t) = feeder.accept(0, "elif") {
            append_chars(&mut ans.text, &t);
            let ghost text_e = ans.text@;
            let ghost pairs_e = ans.ifthen@;
            proof {
                assert(ans.text@ + feeder.stream() =~= text_q + (t@ + feeder.stream()));
                assert(feeder.pos() == q.advance("elif"@.len() as int));
                assert(text_e =~= text_0 + first + "elif"@);
            }
            if CommandIf::parse_pairs(feeder, ans) {
                proof {
                    lemma_nested_prefix(text_0, first, "elif"@, ans.text@);
                    lemma_pairs_kept(old(ans).ifthen@, pairs_e, ans.ifthen@);
                }
                return true;
            }
            feeder.rewind(entry);
            ans.ifthen.truncate(pairs_before);
            ans.text.truncate(text_before);
            proof {
                assert(ans.ifthen@ =~= old(ans).ifthen@);
                assert(ans.text@ =~= old(ans).text@);
            }
            return false;
        }
        if let Some(t) = feeder.accept(0, "else") {
            append_chars(&mut ans.text, &t);
            let ghost text_e = ans.text@;
            proof {
                assert(ans.text@ + feeder.stream() =~= text_q + (t@ + feeder.stream()));
                assert(feeder.pos() == q.advance("else"@.len() as int));
                assert(text_e =~= text_0 + first + "else"@);
            }
            if CommandIf::parse_else_fi(feeder, ans) {
                proof {
                    lemma_else_alone(text_0, first, text_e, ans.text@, ans.else_do->0);
                    assert(ans.ifthen@.skip(k) =~= seq![pair]);
                }
                return true;
            }
            feeder.rewind(entry);
            ans.ifthen.truncate(pairs_before);
            ans.text.truncate(text_before);
            proof {
                assert(ans.ifthen@ =~= old(ans).ifthen@);
                assert(ans.text@ =~= old(ans).text@);
            }
            return false;
        }
        feeder.rewind(entry);
        ans.ifthen.truncate(pairs_before);
        ans.text.truncate(text_before);
        proof {
            assert(ans.ifthen@ =~= old(ans).ifthen@);
            assert(ans.text@ =~= old(ans).text@);
        }
        false
    }

    /// Reads an `if` command: white space, `if`, then one pair of condition
    /// and branch for the `if` and for each `elif`, a branch for `else` where
    /// one stands, `fi`, then redirections and the operator that ends the
    /// command. While a part is not complete, more lines are asked for; where
    /// none comes, the cursor is put back and nothing is consumed.
    pub fn parse(feeder: &mut Feeder) -> (r: Option<CommandIf>)
        ensures
            r is None ==> final(feeder).same_as(old(feeder)),
            r is Some ==> word_at(
                old(feeder).rem(),
                run_len(old(feeder).rem(), 0, CharClass::Space) as int,
            ) == "if"@,
            r is Some <==> if_end(old(feeder).pos()) is Some,
            r matches Some(c) ==> {
                &&& final(feeder).pos() == (if_end(old(feeder).pos())->0).0
                &&& c.eoc == (if_end(old(feeder).pos())->0).1
                &&& c.text@ + final(feeder).stream() == old(feeder).stream()
                &&& c.text@.len() > 0
                &&& c.ifthen@.len() >= 1
                &&& c.spells(old(feeder).rem())
                &&& redirects_view(c.fds.redirects@) == items_redirects((if_body_end(old(feeder).pos())->0).rem)
                &&& c.sound()
                &&& c.pid is None
                &&& !c.group_leader
                &&& c.fds.pipein == -1 && c.fds.pipeout == -1 && c.fds.prevpipein == -1
            },
        decreases old(feeder).stream().len(), 1int,
    {
        let lead: usize = scanner_while(&feeder.remaining, 0, CharClass::Space);
        let entry = feeder.snapshot();
        let mut ans = CommandIf::new();
        match feeder.accept(lead, "if") {
            Some(t) => {
                ans.text = t;
            },
            None => {
                return None;
            },
        }
        proof {
            reveal_strlit("if");
        }
        let ghost head = ans.text@;
        if !CommandIf::parse_pairs(feeder, &mut ans) {
            feeder.rewind(entry);
            return None;
        }
        let ghost body = ans.text@.skip(head.len() as int);
        let ghost spelled = ans.text@;
        let ghost pairs = ans.ifthen@;
        let ghost branch = ans.else_do;
        proof {
            assert(ans.ifthen@.skip(0) =~= ans.ifthen@);
            assert(spelled =~= head + body);
        }
        let ghost after = feeder.rem();
        parse_redirects(feeder, &mut ans.text, &mut ans.fds.redirects);
        let (eoc, n) = scan_control(&feeder.remaining, 0);
        let end = feeder.consume(n);
        append_chars(&mut ans.text, &end);
        ans.eoc = eoc;
        proof {
            let s = old(feeder).rem();
            let tail = after.subrange(0, tail_len(after) as int);
            lemma_tail_in_own_text(after, ans.fds.redirects@, eoc);
            assert(ans.text@ =~= spelled + tail);
            assert(ans.ifthen@ == pairs && ans.else_do == branch);
            assert(pairs_spell(ans.ifthen@, ans.else_do, body) && tail_holds(
                tail,
                ans.fds.redirects@,
                ans.eoc,
            ) && ans.text@ == s.subrange(0, run_len(s, 0, CharClass::Space) as int) + "if"@ + body
                + tail);
            lemma_run_len(s, 0, CharClass::Space);
            assert(ans.text@.subrange(0, lead + 2) =~= s.subrange(0, lead + 2));
            lemma_lead_in_own_text(s, ans.text@, lead + 2);
            let t = ans.text@;
            assert(ans.text@ == t.subrange(0, run_len(t, 0, CharClass::Space) as int) + "if"@
                + body + tail);
        }
        Some(ans)
    }
}

/// A step in running an `if` command.
#[derive(Clone, Copy, Debug, PartialEq, Eq, Structural)]
pub enum IfStep {
    /// Nothing has run yet.
    Start,
    /// The condition of this index.
    Condition(usize),
    /// The branch of this index.
    Branch(usize),
    /// The branch of `else`.
    Else,
    /// Nothing is left to run.
    Done,
}

impl CommandIf {
    /// The step that tries condition `i`; where there is none, the branch of
    /// `else`; where there is none either, the end.
    pub open spec fn condition_or_else(&self, i: int) -> IfStep {
        if 0 <= i < self.ifthen@.len() {
            IfStep::Condition(i as usize)
        } else if self.else_do is Some {
            IfStep::Else
        } else {
            IfStep::Done
        }
    }

    /// The step that follows `ran`, where `succeeded` says whether `?` was `0`
    /// when `ran` was over. A condition that succeeded is followed by its
    /// branch, one that did not by the next condition; a branch ends the
    /// command.
    pub open spec fn next_step(&self, ran: IfStep, succeeded: bool) -> IfStep {
        match ran {
            IfStep::Start => self.condition_or_else(0),
            IfStep::Condition(i) => if i >= self.ifthen@.len() {
                IfStep::Done
            } else if succeeded {
                IfStep::Branch(i)
            } else {
                self.condition_or_else(i + 1)
            },
            IfStep::Branch(_) => IfStep::Done,
            IfStep::Else => IfStep::Done,
            IfStep::Done => IfStep::Done,
        }
    }

    /// The branch that runs where the conditions from `from` on end as
    /// `results` says: that of the first condition that succeeds, else the
    /// branch of `else`, else none.
    pub open spec fn selected(&self, results: Seq<bool>, from: int) -> IfStep
        decreases self.ifthen@.len() - from,
    {
        if 0 <= from < self.ifthen@.len() && from < results.len() {
            if results[from] {
                IfStep::Branch(from as usize)
            } else {
                self.selected(results, from + 1)
            }
        } else if self.else_do is Some {
            IfStep::Else
        } else {
            IfStep::Done
        }
    }

    /// The last step before the end where the command goes on from `ran` and
    /// condition `i`, when it is tried, ends as `results[i]` says.
    pub open spec fn run(&self, ran: IfStep, results: Seq<bool>) -> IfStep
        decreases
            (match ran {
                IfStep::Start => (self.ifthen@.len() + 2) as int,
                IfStep::Condition(i) => if i < self.ifthen@.len() {
                    self.ifthen@.len() - i + 1
                } else {
                    0int
                },
                _ => 0int,
            }),
    {
        let succeeded = match ran {
            IfStep::Condition(i) => i < results.len() && results[i as int],
            _ => false,
        };
        let next = self.next_step(ran, succeeded);
        match (ran, next) {
            (IfStep::Start, IfStep::Condition(j)) => if j < self.ifthen@.len() {
                self.run(next, results)
            } else {
                next
            },
            (IfStep::Condition(i), IfStep::Condition(j)) => if i < j < self.ifthen@.len() {
                self.run(next, results)
            } else {
                next
            },
            (IfStep::Start, _) => next,
            (IfStep::Condition(_), _) => next,
            _ => ran,
        }
    }

    /// Decides the step that follows `ran`, by the value that `?` has now.
    pub fn exec_elems(&self, ran: IfStep, core: &ShellCore) -> (next: IfStep)
        ensures
            next == self.next_step(ran, core.succeeded()),
    {
        let n: usize = self.ifthen.len();
        match ran {
            IfStep::Start => self.step_at(0),
            IfStep::Condition(i) => {
                if i >= n {
                    IfStep::Done
                } else if core.status_is_zero() {
                    IfStep::Branch(i)
                } else {
                    self.step_at(i + 1)
                }
            },
            _ => IfStep::Done,
        }
    }

    fn step_at(&self, i: usize) -> (next: IfStep)
        ensures
            next == self.condition_or_else(i as int),
    {
        if i < self.ifthen.len() {
            IfStep::Condition(i)
        } else if self.else_do.is_some() {
            IfStep::Else
        } else {
            IfStep::Done
        }
    }

    /// The branch of the first condition that succeeds is the one that runs;
    /// where none succeeds it is the branch of `else`, and nothing where there
    /// is no `else`.
    pub proof fn lemma_run_selects(&self, results: Seq<bool>, from: int)
        requires
            0 <= from <= self.ifthen@.len(),
            results.len() == self.ifthen@.len(),
        ensures
            self.run(self.condition_or_else(from), results) == self.selected(results, from),
            from == 0 ==> self.run(IfStep::Start, results) == self.selected(results, 0),
        decreases self.ifthen@.len() - from,
    {
        assert(self.ifthen@.len() == self.ifthen.len());
        if from < self.ifthen@.len() {
            if !results[from] {
                self.lemma_run_selects(results, from + 1);
            }
        }
    }
}

impl CommandIf {
    /// The source text the command was read from.
    pub fn get_text(&self) -> (t: String)
        ensures
            t@ == self.text@,
    {
        string_of(&self.text)
    }

    /// Records the process that runs the command.
    pub fn set_pid(&mut self, pid: Pid)
        ensures
            *final(self) == (CommandIf { pid: Some(pid), ..*old(self) }),
    {
        self.pid = Some(pid);
    }

    pub fn get_pid(&self) -> (pid: Option<Pid>)
        ensures
            pid == self.pid,
    {
        self.pid
    }

    /// Declares the command the leader of a process group.
    pub fn set_group_leader(&mut self)
        ensures
            *final(self) == (CommandIf { group_leader: true, ..*old(self) }),
    {
        self.group_leader = true;
    }

    /// Whether the process that runs the command has to open a process group
    /// of its own before it goes on: it has where the command was declared a
    /// group leader.
    pub fn set_group(&self) -> (join: bool)
        ensures
            join == self.group_leader,
    {
        self.group_leader
    }

    /// Whether the command has no redirection and no pipe end.
    pub fn no_connection(&self) -> (b: bool)
        ensures
            b == self.fds.unconnected(),
    {
        self.fds.no_connection()
    }

    /// Gives the command its pipe ends: the read end and the write end of the
    /// pipe towards the next command, and the read end of the pipe from the
    /// previous one.
    pub fn set_pipe(&mut self, pin: i32, pout: i32, pprev: i32)
        ensures
            final(self).fds.pipein == pin,
            final(self).fds.pipeout == pout,
            final(self).fds.prevpipein == pprev,
            final(self).fds.redirects == old(self).fds.redirects,
            *final(self) == (CommandIf { fds: final(self).fds, ..*old(self) }),
    {
        self.fds.set_pipe(pin, pout, pprev);
    }

    pub fn get_pipe_end(&self) -> (fd: i32)
        ensures
            fd == self.fds.pipein,
    {
        self.fds.pipein
    }

    pub fn get_pipe_out(&self) -> (fd: i32)
        ensures
            fd == self.fds.pipeout,
    {
        self.fds.pipeout
    }

    /// The operator that ended the command, as it is written.
    pub fn get_eoc_string(&self) -> (t: String)
        ensures
            t@ == control_text(self.eoc),
    {
        self.eoc.text()
    }

    /// Where the command runs: in the interpreter's own process while it has
    /// no connection, else in a child.
    pub fn exec_mode(&self) -> (mode: ExecMode)
        ensures
            mode == (if self.fds.unconnected() {
                ExecMode::InProcess
            } else {
                ExecMode::Forked
            }),
    {
        if self.fds.no_connection() {
            ExecMode::InProcess
        } else {
            ExecMode::Forked
        }
    }
}

} // verus!
