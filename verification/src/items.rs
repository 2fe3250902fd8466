//! What follows the words of a command: its redirections, each behind any
//! number of blanks.

use vstd::prelude::*;
use crate::elem_command::lemma_control_in_own_text;
use crate::feeder::Feeder;
use crate::operators::{ControlOperator, RedirectOp};
use crate::redirect::{
    lemma_no_redirect_prefix,
    lemma_redirect_prefix,
    redirect_len,
    redirect_target_start,
    Redirect,
};
use crate::scanner::{
    control_at,
    lemma_run_len,
    lemma_run_len_prefix,
    redirect_op_at,
    run_len,
    scanner_while,
    CharClass,
};
use crate::text::append_chars;

verus! {

/// The words held by a list of character vectors.
pub open spec fn words_view(v: Seq<Vec<char>>) -> Seq<Seq<char>> {
    Seq::new(v.len(), |i: int| v[i]@)
}

/// Operator, target and raw text of each redirection of a list.
pub open spec fn redirects_view(v: Seq<Redirect>) -> Seq<(RedirectOp, Seq<char>, Seq<char>)> {
    Seq::new(v.len(), |i: int| (v[i].op, v[i].target@, v[i].text@))
}

/// Length of the longest sequence of redirections at the start of `s`, each
/// behind a run of blanks; the blanks behind the last one belong to the
/// sequence.
pub open spec fn items_len(s: Seq<char>) -> nat
    decreases s.len(),
{
    let b = run_len(s, 0, CharClass::Blank);
    let t = s.skip(b as int);
    let r = redirect_len(t);
    if b > s.len() {
        b
    } else if 0 < r <= t.len() {
        b + r + items_len(t.skip(r as int))
    } else {
        b
    }
}

/// The redirections at the start of `s`, in order, each as its operator, its
/// target and its raw text.
pub open spec fn items_redirects(s: Seq<char>) -> Seq<(RedirectOp, Seq<char>, Seq<char>)>
    decreases s.len(),
{
    let b = run_len(s, 0, CharClass::Blank);
    let t = s.skip(b as int);
    let r = redirect_len(t);
    if b > s.len() {
        Seq::empty()
    } else if 0 < r <= t.len() {
        seq![
            (
                redirect_op_at(t, 0).0,
                t.subrange(redirect_target_start(t), r as int),
                t.subrange(0, r as int),
            ),
        ] + items_redirects(t.skip(r as int))
    } else {
        Seq::empty()
    }
}

pub proof fn lemma_items_len_bound(s: Seq<char>)
    ensures
        items_len(s) <= s.len(),
    decreases s.len(),
{
    let b = run_len(s, 0, CharClass::Blank);
    lemma_run_len(s, 0, CharClass::Blank);
    let t = s.skip(b as int);
    let r = redirect_len(t);
    if 0 < r <= t.len() {
        lemma_items_len_bound(t.skip(r as int));
    }
}

/// Redirections that end inside the first `m` characters of `s` are the same
/// in those characters alone.
pub proof fn lemma_items_prefix(s: Seq<char>, m: int)
    requires
        items_len(s) <= m <= s.len(),
    ensures
        items_len(s.subrange(0, m)) == items_len(s),
        items_redirects(s.subrange(0, m)) == items_redirects(s),
    decreases s.len(),
{
    let p = s.subrange(0, m);
    let b = run_len(s, 0, CharClass::Blank) as int;
    lemma_run_len(s, 0, CharClass::Blank);
    lemma_run_len_prefix(s, m, 0, CharClass::Blank);
    let t = s.skip(b);
    let tp = p.skip(b);
    assert(tp =~= t.subrange(0, m - b));
    let r = redirect_len(t) as int;
    lemma_run_len(t, redirect_op_at(t, 0).1 as int, CharClass::Blank);
    lemma_run_len(t, redirect_target_start(t), CharClass::Word);
    if 0 < r {
        lemma_items_len_bound(t.skip(r));
        lemma_redirect_prefix(t, m - b);
        lemma_items_prefix(t.skip(r), m - b - r);
        assert(tp.skip(r) =~= t.skip(r).subrange(0, m - b - r));
        assert(tp.subrange(redirect_target_start(t), r) =~= t.subrange(
            redirect_target_start(t),
            r,
        ));
        assert(tp.subrange(0, r) =~= t.subrange(0, r));
    } else {
        lemma_no_redirect_prefix(t, m - b);
    }
}

/// `tail` is what ends a compound command, and no more: redirections, which
/// are these, and a closing operator, which is this one.
pub open spec fn tail_holds(tail: Seq<char>, redirects: Seq<Redirect>, eoc: ControlOperator) -> bool {
    let closing = control_at(tail.skip(items_len(tail) as int), 0);
    &&& redirects_view(redirects) == items_redirects(tail)
    &&& eoc == closing.0
    &&& tail.len() == items_len(tail) + closing.1
}

/// The length of the redirections and the closing operator at the start of
/// `s`.
pub open spec fn tail_len(s: Seq<char>) -> nat {
    items_len(s) + control_at(s.skip(items_len(s) as int), 0).1
}

/// Redirections and closing operator at the start of `s` are those of the
/// characters that they are made of alone.
pub proof fn lemma_tail_in_own_text(s: Seq<char>, redirects: Seq<Redirect>, eoc: ControlOperator)
    requires
        redirects_view(redirects) == items_redirects(s),
        eoc == control_at(s.skip(items_len(s) as int), 0).0,
        tail_len(s) <= s.len(),
    ensures
        tail_holds(s.subrange(0, tail_len(s) as int), redirects, eoc),
{
    let m = tail_len(s) as int;
    let k = items_len(s) as int;
    lemma_items_len_bound(s);
    lemma_items_prefix(s, m);
    lemma_control_in_own_text(s.skip(k), m - k);
    assert(s.subrange(0, m).skip(k) =~= s.skip(k).subrange(0, m - k));
}

/// Consumes the redirections at the start of the buffer, and the blanks
/// before and behind them. Their text goes to the end of `text`, the
/// redirections to the end of `redirects`.
pub fn parse_redirects(feeder: &mut Feeder, text: &mut Vec<char>, redirects: &mut Vec<Redirect>)
    ensures
        final(feeder).src() == old(feeder).src(),
        items_len(old(feeder).rem()) <= old(feeder).rem().len(),
        final(text)@ == old(text)@ + old(feeder).rem().subrange(
            0,
            items_len(old(feeder).rem()) as int,
        ),
        final(feeder).rem() == old(feeder).rem().skip(items_len(old(feeder).rem()) as int),
        redirects_view(final(redirects)@) == redirects_view(old(redirects)@) + items_redirects(
            old(feeder).rem(),
        ),
        final(text)@ + final(feeder).stream() == old(text)@ + old(feeder).stream(),
{
    let ghost s = feeder.rem();
    let ghost done: int = 0;
    proof {
        lemma_items_len_bound(s);
        assert(s.subrange(0, 0) =~= Seq::<char>::empty());
        assert(text@ =~= old(text)@ + s.subrange(0, 0));
        assert(s.skip(0) =~= s);
    }
    loop
        invariant
            0 <= done <= s.len(),
            s == old(feeder).rem(),
            feeder.src() == old(feeder).src(),
            feeder.rem() == s.skip(done),
            text@ == old(text)@ + s.subrange(0, done),
            done + items_len(feeder.rem()) == items_len(s),
            redirects_view(redirects@) + items_redirects(feeder.rem()) == redirects_view(
                old(redirects)@,
            ) + items_redirects(s),
        decreases feeder.rem().len(),
    {
        let ghost cur = feeder.rem();
        let b: usize = scanner_while(&feeder.remaining, 0, CharClass::Blank);
        proof {
            lemma_run_len(cur, 0, CharClass::Blank);
        }
        let blanks = feeder.consume(b);
        append_chars(text, &blanks);
        let ghost t = feeder.rem();
        proof {
            assert(t =~= s.skip(done + b));
            assert(text@ =~= old(text)@ + s.subrange(0, done + b));
        }
        match Redirect::parse(feeder) {
            Some(red) => {
                let ghost r = redirect_len(t) as int;
                append_chars(text, &red.text);
                proof {
                    assert(feeder.rem() =~= s.skip(done + b + r));
                    assert(text@ =~= old(text)@ + s.subrange(0, done + b + r));
                    let before = redirects_view(redirects@);
                    let item = (red.op, red.target@, red.text@);
                    assert(redirects_view(redirects@.push(red)) =~= before.push(item));
                    assert(before.push(item) + items_redirects(t.skip(r)) =~= before + (seq![item]
                        + items_redirects(t.skip(r))));
                    done = done + b + r;
                }
                redirects.push(red);
            },
            None => {
                proof {
                    done = done + b;
                    assert(s.skip(done) =~= feeder.rem());
                    assert(items_redirects(cur) =~= Seq::<
                        (RedirectOp, Seq<char>, Seq<char>),
                    >::empty());
                    assert(redirects_view(redirects@) + Seq::<
                        (RedirectOp, Seq<char>, Seq<char>),
                    >::empty() =~= redirects_view(redirects@));
                    assert(text@ + feeder.stream() =~= old(text)@ + (s + feeder.src()));
                }
                return ;
            },
        }
    }
}

} // verus!
