//! A small growable character buffer the lexer accumulates token text in.

use vstd::prelude::*;
use vstd::string::StrSliceExecFns;

verus! {

/// A buffer of characters that can be packed into a `String`.
pub struct StringBuilder {
    buffer: Vec<char>,
}

impl View for StringBuilder {
    type V = Seq<char>;

    closed spec fn view(&self) -> Seq<char> {
        self.buffer@
    }
}

/// Relies on `Iterator::collect` building a `String` from `char`s: the
/// result holds exactly the characters of the vector, in order.
#[verifier::external_body]
fn collect_chars(v: &Vec<char>) -> (r: String)
    ensures
        r@ == v@,
{
    v.iter().collect()
}

impl StringBuilder {
    /// An empty buffer.
    pub fn new() -> (sb: StringBuilder)
        ensures
            sb@ == Seq::<char>::empty(),
    {
        StringBuilder { buffer: Vec::new() }
    }

    /// Appends one character.
    pub fn push(&mut self, c: char)
        ensures
            final(self)@ == old(self)@.push(c),
    {
        self.buffer.push(c)
    }

    /// Appends every character of `s`.
    pub fn push_str(&mut self, s: &str)
        ensures
            final(self)@ == old(self)@ + s@,
    {
        let n = s.unicode_len();
        let mut i: usize = 0;
        while i < n
            invariant
                i <= n,
                n == s@.len(),
                self@ == old(self)@ + s@.subrange(0, i as int),
            decreases n - i,
        {
            self.buffer.push(s.get_char(i));
            proof {
                assert(self@ =~= old(self)@ + s@.subrange(0, i + 1));
            }
            i = i + 1;
        }
        proof {
            assert(self@ =~= old(self)@ + s@);
        }
    }

    /// The buffer's contents as a `String`; the buffer keeps them.
    pub fn pack(&mut self) -> (r: String)
        ensures
            r@ == old(self)@,
            final(self)@ == old(self)@,
    {
        collect_chars(&self.buffer)
    }

    /// Empties the buffer.
    pub fn clear(&mut self)
        ensures
            final(self)@ == Seq::<char>::empty(),
    {
        self.buffer.clear()
    }
}

} // verus!
