//! The interpreter's variables, among them `?`, the exit status of the last
//! foreground process.

use vstd::prelude::*;
use crate::decimal::{decimal, decimal_of, lemma_decimal_round_trip, parse_number, status_number};
use crate::process::WaitOutcome;
use crate::text::{chars_of, string_of};

verus! {

/// The value bound to `key` in a list of bindings: that of the last binding
/// of `key`.
pub open spec fn lookup(entries: Seq<(Vec<char>, Vec<char>)>, key: Seq<char>) -> Option<Seq<char>>
    decreases entries.len(),
{
    if entries.len() == 0 {
        None
    } else if entries.last().0@ == key {
        Some(entries.last().1@)
    } else {
        lookup(entries.drop_last(), key)
    }
}

/// The value that a wait outcome gives to `?`: the exit code, or 128 plus the
/// number of the signal; none where the outcome is neither.
pub open spec fn status_of(outcome: WaitOutcome) -> Option<Seq<char>> {
    match outcome {
        WaitOutcome::Exited(code) => Some(decimal(code as int)),
        WaitOutcome::Signaled(signal) => Some(decimal(128 + signal)),
        WaitOutcome::Other => None,
    }
}

/// The status that a wait leaves in `?` is read back as the number it was
/// written from.
pub proof fn lemma_status_read_back(outcome: WaitOutcome)
    ensures
        match outcome {
            WaitOutcome::Exited(code) => status_of(outcome) matches Some(v) && status_number(v)
                == Some(code),
            WaitOutcome::Signaled(signal) => status_of(outcome) matches Some(v) && (128 + signal
                <= i32::MAX ==> status_number(v) == Some((128 + signal) as i32)),
            WaitOutcome::Other => status_of(outcome) is None,
        },
{
    match outcome {
        WaitOutcome::Exited(code) => {
            lemma_decimal_round_trip(code as int);
        },
        WaitOutcome::Signaled(signal) => {
            lemma_decimal_round_trip(128 + signal);
        },
        WaitOutcome::Other => {},
    }
}

pub fn same_chars(a: &Vec<char>, b: &Vec<char>) -> (r: bool)
    ensures
        r == (a@ == b@),
{
    if a.len() != b.len() {
        return false;
    }
    let mut i: usize = 0;
    while i < a.len()
        invariant
            i <= a.len(),
            a.len() == b.len(),
            forall|j: int| 0 <= j < i ==> a@[j] == b@[j],
        decreases a.len() - i,
    {
        if a[i] != b[i] {
            return false;
        }
        i += 1;
    }
    assert(a@ =~= b@);
    true
}

/// Replacing the value of the last binding of `key` changes what `key` is
/// bound to and nothing else.
pub proof fn lemma_lookup_update(
    entries: Seq<(Vec<char>, Vec<char>)>,
    i: int,
    entry: (Vec<char>, Vec<char>),
    k: Seq<char>,
)
    requires
        0 <= i < entries.len(),
        entries[i].0@ == entry.0@,
        forall|j: int| i < j < entries.len() ==> entries[j].0@ != entry.0@,
    ensures
        lookup(entries.update(i, entry), k) == (if k == entry.0@ {
            Some(entry.1@)
        } else {
            lookup(entries, k)
        }),
    decreases entries.len(),
{
    let updated = entries.update(i, entry);
    if i == entries.len() - 1 {
        assert(updated.drop_last() =~= entries.drop_last());
    } else {
        assert(updated.drop_last() =~= entries.drop_last().update(i, entry));
        lemma_lookup_update(entries.drop_last(), i, entry, k);
    }
}

pub struct ShellCore {
    /// The bindings, each a name and a value. A name is bound to the value of
    /// its last binding.
    pub vars: Vec<(Vec<char>, Vec<char>)>,
}

impl ShellCore {
    /// What `key` is bound to.
    pub open spec fn value_of(&self, key: Seq<char>) -> Option<Seq<char>> {
        lookup(self.vars@, key)
    }

    /// Whether the last foreground process succeeded: `?` is bound to `0`.
    pub open spec fn succeeded(&self) -> bool {
        self.value_of(seq!['?']) == Some(seq!['0'])
    }

    /// The variables at the start of the interpreter: `?` is `0`, nothing else
    /// is bound.
    pub fn new() -> (core: ShellCore)
        ensures
            forall|k: Seq<char>|
                #[trigger] core.value_of(k) == (if k == seq!['?'] {
                    Some(seq!['0'])
                } else {
                    None
                }),
    {
        let mut key: Vec<char> = Vec::new();
        key.push('?');
        let mut value: Vec<char> = Vec::new();
        value.push('0');
        proof {
            assert(key@ =~= seq!['?']);
            assert(value@ =~= seq!['0']);
        }
        let mut core = ShellCore { vars: Vec::new() };
        core.set_chars(key, value);
        core
    }

    /// Binds `key` to `value`. No other binding changes.
    pub fn set_chars(&mut self, key: Vec<char>, value: Vec<char>)
        ensures
            forall|k: Seq<char>|
                #[trigger] final(self).value_of(k) == (if k == key@ {
                    Some(value@)
                } else {
                    old(self).value_of(k)
                }),
    {
        let mut i: usize = self.vars.len();
        while i > 0
            invariant
                i <= self.vars.len(),
                self.vars == old(self).vars,
                forall|j: int| i <= j < self.vars@.len() ==> self.vars@[j].0@ != key@,
            decreases i,
        {
            if same_chars(&self.vars[i - 1].0, &key) {
                let ghost entry = (key, value);
                proof {
                    assert forall|k: Seq<char>|
                        lookup(old(self).vars@.update(i - 1, entry), k) == (if k == key@ {
                            Some(value@)
                        } else {
                            #[trigger] lookup(old(self).vars@, k)
                        }) by {
                        lemma_lookup_update(old(self).vars@, i - 1, entry, k);
                    }
                }
                self.vars.set(i - 1, (key, value));
                return ;
            }
            i -= 1;
        }
        proof {
            assert(self.vars@.push((key, value)).drop_last() =~= self.vars@);
            assert forall|k: Seq<char>| k != key@ implies #[trigger] lookup(
                self.vars@.push((key, value)),
                k,
            ) == lookup(self.vars@, k) by {}
        }
        self.vars.push((key, value));
    }

    /// Binds the variable named `key` to `value`.
    pub fn set(&mut self, key: &str, value: &str)
        ensures
            forall|k: Seq<char>|
                #[trigger] final(self).value_of(k) == (if k == key@ {
                    Some(value@)
                } else {
                    old(self).value_of(k)
                }),
    {
        self.set_chars(chars_of(key), chars_of(value));
    }

    /// The value of the variable named `key`, if it is bound.
    pub fn get(&self, key: &str) -> (r: Option<String>)
        ensures
            r is Some <==> self.value_of(key@) is Some,
            r matches Some(v) ==> Some(v@) == self.value_of(key@),
    {
        let name = chars_of(key);
        let mut i: usize = self.vars.len();
        assert(self.vars@.subrange(0, i as int) =~= self.vars@);
        while i > 0
            invariant
                i <= self.vars.len(),
                name@ == key@,
                lookup(self.vars@, key@) == lookup(self.vars@.subrange(0, i as int), key@),
            decreases i,
        {
            let ghost cur = self.vars@.subrange(0, i as int);
            assert(cur.last() == self.vars@[i - 1]);
            assert(cur.drop_last() =~= self.vars@.subrange(0, i - 1));
            if same_chars(&self.vars[i - 1].0, &name) {
                return Some(string_of(&self.vars[i - 1].1));
            }
            i -= 1;
        }
        None
    }

    /// Whether `?` is bound to `0`.
    pub fn status_is_zero(&self) -> (b: bool)
        ensures
            b == self.succeeded(),
    {
        proof {
            reveal_strlit("?");
            reveal_strlit("0");
            assert("?"@ =~= seq!['?']);
            assert("0"@ =~= seq!['0']);
        }
        match self.get("?") {
            Some(v) => {
                let c = chars_of(v.as_str());
                let zero = c.len() == 1 && c[0] == '0';
                proof {
                    if zero {
                        assert(c@ =~= seq!['0']);
                    } else if c@ == seq!['0'] {
                        assert(c@.len() == 1 && c@[0] == '0');
                    }
                }
                zero
            },
            None => false,
        }
    }

    /// The exit status that `?` holds, as a number; none where `?` is not
    /// bound or holds no such number.
    pub fn status_code(&self) -> (code: Option<i32>)
        ensures
            code == (match self.value_of(seq!['?']) {
                Some(v) => status_number(v),
                None => None,
            }),
    {
        proof {
            reveal_strlit("?");
            assert("?"@ =~= seq!['?']);
        }
        match self.get("?") {
            Some(v) => parse_number(&chars_of(v.as_str())),
            None => None,
        }
    }

    /// Records how a foreground wait ended: `?` becomes the exit code, or 128
    /// plus the number of the signal. After any other outcome nothing changes.
    pub fn record_wait(&mut self, outcome: WaitOutcome)
        ensures
            forall|k: Seq<char>|
                #[trigger] final(self).value_of(k) == (if k == seq!['?'] && status_of(outcome)
                    is Some {
                    status_of(outcome)
                } else {
                    old(self).value_of(k)
                }),
    {
        let mut key: Vec<char> = Vec::new();
        key.push('?');
        assert(key@ =~= seq!['?']);
        match outcome {
            WaitOutcome::Exited(code) => {
                self.set_chars(key, decimal_of(code as i64));
            },
            WaitOutcome::Signaled(signal) => {
                self.set_chars(key, decimal_of(128 + signal as i64));
            },
            WaitOutcome::Other => {},
        }
    }
}

} // verus!
