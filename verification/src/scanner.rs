//! Lookahead over a character buffer: runs of one class of characters, and the
//! operator that stands at a position.

use vstd::prelude::*;
use crate::operators::{ControlOperator, RedirectOp};

verus! {

/// The classes of characters that a scan can run over.
#[derive(Clone, Copy, Debug, PartialEq, Eq, Structural)]
pub enum CharClass {
    /// space and tab
    Blank,
    /// space, tab and line break
    Space,
    /// whatever can stand inside a word
    Word,
    /// whatever can stand inside the words of a command: a word character, a
    /// space or a tab
    Span,
}

pub open spec fn is_blank(c: char) -> bool {
    c == ' ' || c == '\t'
}

pub open spec fn is_space(c: char) -> bool {
    c == ' ' || c == '\t' || c == '\n'
}

/// A word holds no white space and none of the characters that operators are
/// made of.
pub open spec fn is_word_char(c: char) -> bool {
    !(c == ' ' || c == '\t' || c == '\n' || c == ';' || c == '&' || c == '|' || c == '<'
        || c == '>')
}

pub open spec fn in_class(class: CharClass, c: char) -> bool {
    match class {
        CharClass::Blank => is_blank(c),
        CharClass::Space => is_space(c),
        CharClass::Word => is_word_char(c),
        CharClass::Span => is_word_char(c) || c == ' ' || c == '\t',
    }
}

/// Length of the longest run of characters of `class` that starts at `from`.
pub open spec fn run_len(s: Seq<char>, from: int, class: CharClass) -> nat
    decreases s.len() - from,
{
    if 0 <= from < s.len() && in_class(class, s[from]) {
        1 + run_len(s, from + 1, class)
    } else {
        0
    }
}

/// A run stays inside the text, holds only characters of its class, and ends
/// at the end of the text or before a character of another class.
pub proof fn lemma_run_len(s: Seq<char>, from: int, class: CharClass)
    requires
        0 <= from <= s.len(),
    ensures
        from + run_len(s, from, class) <= s.len(),
        forall|i: int|
            from <= i < from + run_len(s, from, class) ==> in_class(class, #[trigger] s[i]),
        from + run_len(s, from, class) < s.len() ==> !in_class(
            class,
            s[from + run_len(s, from, class)],
        ),
    decreases s.len() - from,
{
    if from < s.len() && in_class(class, s[from]) {
        lemma_run_len(s, from + 1, class);
    }
}

/// A run that ends inside the first `m` characters of `s` is the same in
/// those characters alone.
pub proof fn lemma_run_len_prefix(s: Seq<char>, m: int, from: int, class: CharClass)
    requires
        0 <= from,
        from + run_len(s, from, class) <= m <= s.len(),
    ensures
        run_len(s.subrange(0, m), from, class) == run_len(s, from, class),
    decreases s.len() - from,
{
    let p = s.subrange(0, m);
    if from < s.len() && in_class(class, s[from]) {
        assert(p[from] == s[from]);
        lemma_run_len_prefix(s, m, from + 1, class);
    } else if from < m {
        assert(p[from] == s[from]);
    }
}

/// A run in the first `m` characters of `s` that ends before the last of
/// them is the same in all of `s`.
pub proof fn lemma_run_len_whole(s: Seq<char>, m: int, from: int, class: CharClass)
    requires
        0 <= from,
        0 <= m <= s.len(),
        from + run_len(s.subrange(0, m), from, class) < m,
    ensures
        run_len(s, from, class) == run_len(s.subrange(0, m), from, class),
    decreases m - from,
{
    let p = s.subrange(0, m);
    assert(p[from] == s[from]);
    if in_class(class, p[from]) {
        lemma_run_len_whole(s, m, from + 1, class);
    }
}

/// A word is no longer than the words of a command that start where it
/// starts.
pub proof fn lemma_word_in_span(s: Seq<char>, from: int)
    ensures
        run_len(s, from, CharClass::Word) <= run_len(s, from, CharClass::Span),
    decreases s.len() - from,
{
    if 0 <= from < s.len() && in_class(CharClass::Word, s[from]) {
        lemma_word_in_span(s, from + 1);
    }
}

/// The white space that leads `s` up to a word at `lead` is the white space
/// that leads any text which starts as `s` does up to the end of that word.
pub proof fn lemma_lead_in_own_text(s: Seq<char>, t: Seq<char>, m: int)
    requires
        run_len(s, 0, CharClass::Space) < m <= s.len(),
        m <= t.len(),
        t.subrange(0, m) == s.subrange(0, m),
        !in_class(CharClass::Space, s[run_len(s, 0, CharClass::Space) as int]),
    ensures
        run_len(t, 0, CharClass::Space) == run_len(s, 0, CharClass::Space),
        t.subrange(0, run_len(t, 0, CharClass::Space) as int) == s.subrange(
            0,
            run_len(s, 0, CharClass::Space) as int,
        ),
{
    let lead = run_len(s, 0, CharClass::Space) as int;
    lemma_run_len_prefix(s, m, 0, CharClass::Space);
    lemma_run_len_whole(t, m, 0, CharClass::Space);
    assert(t.subrange(0, lead) =~= t.subrange(0, m).subrange(0, lead));
    assert(s.subrange(0, lead) =~= s.subrange(0, m).subrange(0, lead));
}

/// The word that starts at `i`: the longest run of word characters there.
pub open spec fn word_at(s: Seq<char>, i: int) -> Seq<char> {
    s.subrange(i, i + run_len(s, i, CharClass::Word))
}

pub fn char_in_class(class: CharClass, c: char) -> (b: bool)
    ensures
        b == in_class(class, c),
{
    match class {
        CharClass::Blank => c == ' ' || c == '\t',
        CharClass::Space => c == ' ' || c == '\t' || c == '\n',
        CharClass::Word => !(c == ' ' || c == '\t' || c == '\n' || c == ';' || c == '&' || c
            == '|' || c == '<' || c == '>'),
        CharClass::Span => !(c == '\n' || c == ';' || c == '&' || c == '|' || c == '<' || c
            == '>'),
    }
}

/// Counts the characters of `class` that stand in a row from `from` on.
pub fn scanner_while(v: &Vec<char>, from: usize, class: CharClass) -> (n: usize)
    ensures
        n == run_len(v@, from as int, class),
        from <= v@.len() ==> from + n <= v@.len(),
{
    if from >= v.len() {
        return 0;
    }
    let mut i: usize = from;
    while i < v.len() && char_in_class(class, v[i])
        invariant
            from <= i <= v.len(),
            run_len(v@, from as int, class) == (i - from) + run_len(v@, i as int, class),
        decreases v.len() - i,
    {
        i += 1;
    }
    i - from
}

/// The character at `i`, or the NUL character where the text has none there.
pub open spec fn char_at(s: Seq<char>, i: int) -> char {
    if 0 <= i < s.len() {
        s[i]
    } else {
        '\0'
    }
}

pub fn peek(v: &Vec<char>, i: usize) -> (c: char)
    ensures
        c == char_at(v@, i as int),
{
    if i < v.len() {
        v[i]
    } else {
        '\0'
    }
}

/// The control operator that starts at `i`, the longest that fits, and its
/// length; `NoChar` and 0 where none starts there. An `&` in front of `>` opens
/// a redirection and is no control operator.
pub open spec fn control_at(s: Seq<char>, i: int) -> (ControlOperator, nat) {
    let a = char_at(s, i);
    let b = char_at(s, i + 1);
    let c = char_at(s, i + 2);
    if a == ';' {
        if b == ';' {
            if c == '&' {
                (ControlOperator::SemiSemiAnd, 3)
            } else {
                (ControlOperator::DoubleSemicolon, 2)
            }
        } else if b == '&' {
            (ControlOperator::SemiAnd, 2)
        } else {
            (ControlOperator::Semicolon, 1)
        }
    } else if a == '&' {
        if b == '&' {
            (ControlOperator::And, 2)
        } else if b == '>' {
            (ControlOperator::NoChar, 0)
        } else {
            (ControlOperator::BgAnd, 1)
        }
    } else if a == '|' {
        if b == '|' {
            (ControlOperator::Or, 2)
        } else {
            (ControlOperator::Pipe, 1)
        }
    } else if a == '\n' {
        (ControlOperator::NewLine, 1)
    } else {
        (ControlOperator::NoChar, 0)
    }
}

/// Reads the control operator that starts at `i`.
pub fn scan_control(v: &Vec<char>, i: usize) -> (r: (ControlOperator, usize))
    requires
        i <= v@.len(),
    ensures
        r.0 == control_at(v@, i as int).0,
        r.1 == control_at(v@, i as int).1,
        i + r.1 <= v@.len(),
{
    let n: usize = v.len();
    let a = peek(v, i);
    let b = if i < n { peek(v, i + 1) } else { '\0' };
    let c = if i < n && i + 1 < n { peek(v, i + 2) } else { '\0' };
    if a == ';' {
        if b == ';' {
            if c == '&' {
                (ControlOperator::SemiSemiAnd, 3)
            } else {
                (ControlOperator::DoubleSemicolon, 2)
            }
        } else if b == '&' {
            (ControlOperator::SemiAnd, 2)
        } else {
            (ControlOperator::Semicolon, 1)
        }
    } else if a == '&' {
        if b == '&' {
            (ControlOperator::And, 2)
        } else if b == '>' {
            (ControlOperator::NoChar, 0)
        } else {
            (ControlOperator::BgAnd, 1)
        }
    } else if a == '|' {
        if b == '|' {
            (ControlOperator::Or, 2)
        } else {
            (ControlOperator::Pipe, 1)
        }
    } else if a == '\n' {
        (ControlOperator::NewLine, 1)
    } else {
        (ControlOperator::NoChar, 0)
    }
}

/// The redirection operator that starts at `i`, the longest that fits, and its
/// length; `NoRedirect` and 0 where none starts there.
pub open spec fn redirect_op_at(s: Seq<char>, i: int) -> (RedirectOp, nat) {
    let a = char_at(s, i);
    let b = char_at(s, i + 1);
    let c = char_at(s, i + 2);
    if a == '&' {
        if b == '>' {
            if c == '>' {
                (RedirectOp::AndAppend, 3)
            } else {
                (RedirectOp::AndOutput, 2)
            }
        } else {
            (RedirectOp::NoRedirect, 0)
        }
    } else if a == '<' {
        if b == '<' {
            if c == '<' {
                (RedirectOp::HereStr, 3)
            } else {
                (RedirectOp::HereDoc, 2)
            }
        } else if b == '>' {
            (RedirectOp::InOut, 2)
        } else {
            (RedirectOp::Input, 1)
        }
    } else if a == '>' {
        if b == '>' {
            (RedirectOp::Append, 2)
        } else if b == '&' {
            (RedirectOp::OutputAnd, 2)
        } else {
            (RedirectOp::Output, 1)
        }
    } else {
        (RedirectOp::NoRedirect, 0)
    }
}

/// Reads the redirection operator that starts at `i`.
pub fn scan_redirect_op(v: &Vec<char>, i: usize) -> (r: (RedirectOp, usize))
    requires
        i <= v@.len(),
    ensures
        r.0 == redirect_op_at(v@, i as int).0,
        r.1 == redirect_op_at(v@, i as int).1,
        i + r.1 <= v@.len(),
{
    let n: usize = v.len();
    let a = peek(v, i);
    let b = if i < n { peek(v, i + 1) } else { '\0' };
    let c = if i < n && i + 1 < n { peek(v, i + 2) } else { '\0' };
    if a == '&' {
        if b == '>' {
            if c == '>' {
                (RedirectOp::AndAppend, 3)
            } else {
                (RedirectOp::AndOutput, 2)
            }
        } else {
            (RedirectOp::NoRedirect, 0)
        }
    } else if a == '<' {
        if b == '<' {
            if c == '<' {
                (RedirectOp::HereStr, 3)
            } else {
                (RedirectOp::HereDoc, 2)
            }
        } else if b == '>' {
            (RedirectOp::InOut, 2)
        } else {
            (RedirectOp::Input, 1)
        }
    } else if a == '>' {
        if b == '>' {
            (RedirectOp::Append, 2)
        } else if b == '&' {
            (RedirectOp::OutputAnd, 2)
        } else {
            (RedirectOp::Output, 1)
        }
    } else {
        (RedirectOp::NoRedirect, 0)
    }
}

} // verus!
