//! A flat reading of one line: the words between single spaces.

use vstd::prelude::*;
use crate::items::words_view;
use crate::text::{chars_of, slice_of, string_of};

verus! {

/// The characters that count as white space at the ends of a line: those
/// with the Unicode property `White_Space`.
pub open spec fn is_whitespace(c: char) -> bool {
    let u = c as u32;
    (0x09 <= u <= 0x0d) || u == 0x20 || u == 0x85 || u == 0xa0 || u == 0x1680 || (0x2000 <= u
        <= 0x200a) || u == 0x2028 || u == 0x2029 || u == 0x202f || u == 0x205f || u == 0x3000
}

/// Number of white-space characters at the start of `s`.
pub open spec fn leading_whitespace(s: Seq<char>) -> nat
    decreases s.len(),
{
    if s.len() > 0 && is_whitespace(s[0]) {
        1 + leading_whitespace(s.skip(1))
    } else {
        0
    }
}

/// Number of white-space characters at the end of `s`.
pub open spec fn trailing_whitespace(s: Seq<char>) -> nat
    decreases s.len(),
{
    if s.len() > 0 && is_whitespace(s.last()) {
        1 + trailing_whitespace(s.drop_last())
    } else {
        0
    }
}

/// `s` without the white space at its two ends.
pub open spec fn trimmed(s: Seq<char>) -> Seq<char> {
    let a = leading_whitespace(s) as int;
    if a == s.len() {
        Seq::empty()
    } else {
        s.subrange(a, s.len() - trailing_whitespace(s))
    }
}

/// The pieces of `s` between its spaces, in order. A text without a space is
/// one piece, and so is the empty text; two spaces in a row have an empty
/// piece between them.
pub open spec fn split_spaces(s: Seq<char>) -> Seq<Seq<char>>
    decreases s.len(),
{
    if s.len() == 0 {
        seq![Seq::empty()]
    } else {
        let before = split_spaces(s.drop_last());
        if s.last() == ' ' {
            before.push(Seq::empty())
        } else {
            before.update(before.len() - 1, before.last().push(s.last()))
        }
    }
}

pub proof fn lemma_trailing_whitespace_bound(s: Seq<char>)
    ensures
        trailing_whitespace(s) <= s.len(),
        leading_whitespace(s) < s.len() ==> leading_whitespace(s) + trailing_whitespace(s)
            <= s.len(),
    decreases s.len(),
{
    if s.len() > 0 {
        lemma_leading_prefix(s);
        if is_whitespace(s.last()) {
            lemma_trailing_whitespace_bound(s.drop_last());
        }
    }
}

/// Where not all of `s` is white space, its leading white space is that of
/// `s` without its last character.
pub proof fn lemma_leading_prefix(s: Seq<char>)
    requires
        s.len() > 0,
    ensures
        leading_whitespace(s) < s.len() ==> leading_whitespace(s.drop_last())
            == leading_whitespace(s),
        leading_whitespace(s) <= s.len(),
        leading_whitespace(s) < s.len() ==> !is_whitespace(s[leading_whitespace(s) as int]),
    decreases s.len(),
{
    if is_whitespace(s[0]) {
        if s.len() > 1 {
            assert(s.skip(1).drop_last() =~= s.drop_last().skip(1));
            lemma_leading_prefix(s.skip(1));
            let k = leading_whitespace(s.skip(1)) as int;
            if k < s.len() - 1 {
                assert(s.skip(1)[k] == s[1 + k]);
            }
        } else {
            assert(s.skip(1).len() == 0);
        }
    }
}

pub fn whitespace_char(c: char) -> (b: bool)
    ensures
        b == is_whitespace(c),
{
    let u: u32 = c as u32;
    (0x09 <= u && u <= 0x0d) || u == 0x20 || u == 0x85 || u == 0xa0 || u == 0x1680 || (0x2000
        <= u && u <= 0x200a) || u == 0x2028 || u == 0x2029 || u == 0x202f || u == 0x205f || u
        == 0x3000
}

/// A copy of `v` without the white space at its two ends.
pub fn trim(v: &Vec<char>) -> (r: Vec<char>)
    ensures
        r@ == trimmed(v@),
{
    let n: usize = v.len();
    let mut a: usize = 0;
    assert(v@.skip(0) =~= v@);
    while a < n && whitespace_char(v[a])
        invariant
            a <= n,
            n == v@.len(),
            leading_whitespace(v@) == a + leading_whitespace(v@.skip(a as int)),
        decreases n - a,
    {
        assert(v@.skip(a as int).skip(1) =~= v@.skip(a + 1));
        a += 1;
    }
    if a == n {
        return Vec::new();
    }
    let mut b: usize = n;
    assert(v@.subrange(0, n as int) =~= v@);
    proof {
        lemma_trailing_whitespace_bound(v@);
    }
    while b > a && whitespace_char(v[b - 1])
        invariant
            a <= b <= n,
            n == v@.len(),
            trailing_whitespace(v@) == (n - b) + trailing_whitespace(v@.subrange(0, b as int)),
        decreases b,
    {
        assert(v@.subrange(0, b as int).drop_last() =~= v@.subrange(0, b - 1));
        b -= 1;
    }
    proof {
        if b > a {
            assert(v@.subrange(0, b as int).last() == v@[b - 1]);
        }
    }
    slice_of(v, a, b)
}

/// `s` without the white space at its end.
pub open spec fn trimmed_end(s: Seq<char>) -> Seq<char> {
    s.subrange(0, s.len() - trailing_whitespace(s))
}

/// A copy of `v` without the white space at its end.
pub fn trim_end(v: &Vec<char>) -> (r: Vec<char>)
    ensures
        r@ == trimmed_end(v@),
{
    let n: usize = v.len();
    let mut b: usize = n;
    assert(v@.subrange(0, n as int) =~= v@);
    proof {
        lemma_trailing_whitespace_bound(v@);
    }
    while b > 0 && whitespace_char(v[b - 1])
        invariant
            b <= n,
            n == v@.len(),
            trailing_whitespace(v@) == (n - b) + trailing_whitespace(v@.subrange(0, b as int)),
        decreases b,
    {
        assert(v@.subrange(0, b as int).drop_last() =~= v@.subrange(0, b - 1));
        b -= 1;
    }
    proof {
        if b > 0 {
            assert(v@.subrange(0, b as int).last() == v@[b - 1]);
        }
    }
    slice_of(v, 0, b)
}

/// A text has at least one piece.
pub proof fn lemma_split_spaces_nonempty(s: Seq<char>)
    ensures
        split_spaces(s).len() >= 1,
    decreases s.len(),
{
    if s.len() > 0 {
        lemma_split_spaces_nonempty(s.drop_last());
    }
}

/// The pieces of `v` between its spaces.
pub fn split(v: &Vec<char>) -> (pieces: Vec<Vec<char>>)
    ensures
        words_view(pieces@) == split_spaces(v@),
{
    let mut done: Vec<Vec<char>> = Vec::new();
    let mut cur: Vec<char> = Vec::new();
    let mut i: usize = 0;
    assert(v@.subrange(0, 0) =~= Seq::<char>::empty());
    assert(words_view(done@).push(cur@) =~= seq![Seq::<char>::empty()]);
    while i < v.len()
        invariant
            i <= v.len(),
            words_view(done@).push(cur@) == split_spaces(v@.subrange(0, i as int)),
        decreases v.len() - i,
    {
        let ghost before = split_spaces(v@.subrange(0, i as int));
        let ghost next = v@.subrange(0, i + 1);
        assert(next.drop_last() =~= v@.subrange(0, i as int));
        assert(next.last() == v@[i as int]);
        let c = v[i];
        if c == ' ' {
            let ghost prev = words_view(done@);
            done.push(cur);
            assert(words_view(done@) =~= prev.push(cur@));
            cur = Vec::new();
        } else {
            let ghost prev = cur@;
            cur.push(c);
            assert(words_view(done@).push(cur@) =~= before.update(
                before.len() - 1,
                before.last().push(c),
            ));
        }
        i += 1;
    }
    assert(v@.subrange(0, v@.len() as int) =~= v@);
    let ghost prev = words_view(done@);
    done.push(cur);
    assert(words_view(done@) =~= prev.push(cur@));
    done
}

/// A node of the flat tree: a text, and under it the nodes of its parts.
pub struct Tree {
    pub elems: Vec<Tree>,
    pub text: String,
    pub text_pos: usize,
}

impl Tree {
    pub fn new() -> (t: Tree)
        ensures
            t.elems@.len() == 0,
            t.text@.len() == 0,
            t.text_pos == 0,
    {
        Tree { elems: Vec::new(), text: String::new(), text_pos: 0 }
    }
}

pub struct CommandWithArgs {
    pub tree: Tree,
}

/// Whether the nodes are leaves that hold the given words, in order.
pub open spec fn leaves_hold(elems: Seq<Tree>, words: Seq<Seq<char>>) -> bool {
    &&& elems.len() == words.len()
    &&& forall|i: int|
        0 <= i < elems.len() ==> (#[trigger] elems[i]).text@ == words[i] && elems[i].elems@.len()
            == 0 && elems[i].text_pos == 0
}

/// Reads a line as one command with its arguments.
pub fn top_level_element(line: String) -> (r: Option<CommandWithArgs>)
    ensures
        r matches Some(c) && c.tree.text@ == line@ && c.tree.text_pos == 0 && leaves_hold(
            c.tree.elems@,
            split_spaces(trimmed(line@)),
        ),
{
    command_with_args(line)
}

/// Reads a line as a command with its arguments: the line without the white
/// space at its ends, split at every single space. The result holds the line
/// and under it one leaf for each piece.
pub fn command_with_args(line: String) -> (r: Option<CommandWithArgs>)
    ensures
        r matches Some(c) && c.tree.text@ == line@ && c.tree.text_pos == 0 && leaves_hold(
            c.tree.elems@,
            split_spaces(trimmed(line@)),
        ),
{
    let chars = chars_of(line.as_str());
    let words = split(&trim(&chars));
    let mut ans = CommandWithArgs { tree: Tree::new() };
    ans.tree.text = line;
    let mut i: usize = 0;
    while i < words.len()
        invariant
            i <= words.len(),
            ans.tree.text@ == line@,
            ans.tree.text_pos == 0,
            leaves_hold(ans.tree.elems@, words_view(words@).subrange(0, i as int)),
        decreases words.len() - i,
    {
        let tree = Tree { elems: Vec::new(), text: string_of(&words[i]), text_pos: 0 };
        ans.tree.elems.push(tree);
        i += 1;
    }
    assert(words_view(words@).subrange(0, words@.len() as int) =~= words_view(words@));
    Some(ans)
}

} // verus!
