use vstd::prelude::*;
use vstd::string::*;
use crate::text::{decimal, push_char, push_decimal};

verus! {

/// The counter that `entries` holds for `key`: the value of its latest entry, 0 if it has none.
pub open spec fn counter_of(entries: Seq<(String, u32)>, key: Seq<char>) -> nat
    decreases entries.len(),
{
    if entries.len() == 0 {
        0
    } else if entries.last().0@ == key {
        entries.last().1 as nat
    } else {
        counter_of(entries.drop_last(), key)
    }
}

/// `base` followed by an underscore and the decimal notation of `n`.
pub open spec fn decorated(base: Seq<char>, n: nat) -> Seq<char> {
    base.push('_') + decimal(n)
}

/// Hands out names made unique by a counter kept for each base name.
///
/// The counters live in a log: an increment appends the new value, and the
/// latest entry of a base name holds its counter.
pub struct StringDecorator {
    decoration_indices: Vec<(String, u32)>,
}

impl StringDecorator {
    /// The counter of `base`.
    pub closed spec fn counter(&self, base: Seq<char>) -> nat {
        counter_of(self.decoration_indices@, base)
    }

    /// A decorator whose counters are all 0.
    pub fn new() -> (r: Self)
        ensures
            forall|b: Seq<char>| r.counter(b) == 0,
    {
        StringDecorator { decoration_indices: Vec::new() }
    }

    /// The counter of `string`.
    pub fn index(&self, string: &str) -> (r: u32)
        ensures
            r as nat == self.counter(string@),
    {
        let key = String::from_str(string);
        let mut i: usize = self.decoration_indices.len();
        assert(self.decoration_indices@.subrange(0, i as int) =~= self.decoration_indices@);
        while i > 0
            invariant
                i <= self.decoration_indices@.len(),
                counter_of(self.decoration_indices@.subrange(0, i as int), string@) == counter_of(
                    self.decoration_indices@,
                    string@,
                ),
                key@ == string@,
            decreases i,
        {
            let ghost prefix = self.decoration_indices@.subrange(0, i as int);
            assert(prefix.drop_last() =~= self.decoration_indices@.subrange(0, i - 1));
            if self.decoration_indices[i - 1].0 == key {
                return self.decoration_indices[i - 1].1;
            }
            i = i - 1;
        }
        assert(self.decoration_indices@.subrange(0, 0) =~= Seq::<(String, u32)>::empty());
        0
    }

    /// `string` decorated with its current counter, as `{string}_{n}`.
    pub fn decorate(&self, string: &str) -> (r: String)
        ensures
            r@ == decorated(string@, self.counter(string@)),
    {
        let n = self.index(string);
        let mut r = String::from_str(string);
        push_char(&mut r, '_');
        push_decimal(&mut r, n as usize);
        r
    }

    /// Adds one to the counter of `string`.
    pub fn increment(&mut self, string: String)
        requires
            old(self).counter(string@) < u32::MAX,
        ensures
            final(self).counter(string@) == old(self).counter(string@) + 1,
            forall|b: Seq<char>| b != string@ ==> final(self).counter(b) == old(self).counter(b),
    {
        let n = self.index(string.as_str());
        self.decoration_indices.push((string, n + 1));
        assert(self.decoration_indices@.drop_last() =~= old(self).decoration_indices@);
    }

    /// `string` decorated with its current counter; the counter then goes up by one.
    pub fn decorate_and_increment(&mut self, string: String) -> (r: String)
        requires
            old(self).counter(string@) < u32::MAX,
        ensures
            r@ == decorated(string@, old(self).counter(string@)),
            final(self).counter(string@) == old(self).counter(string@) + 1,
            forall|b: Seq<char>| b != string@ ==> final(self).counter(b) == old(self).counter(b),
    {
        let r = self.decorate(string.as_str());
        self.increment(string);
        r
    }
}

} // verus!
