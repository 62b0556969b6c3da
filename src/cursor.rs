use vstd::prelude::*;
use vstd::std_specs::iter::IteratorSpec;

verus! {

/// The characters of `s`, in order.
fn chars_of(s: &str) -> (r: Vec<char>)
    ensures
        r@ == s@,
{
    broadcast use vstd::string::group_string_axioms;

    let mut it = s.chars();
    let mut r: Vec<char> = Vec::new();
    loop
        invariant
            it.obeys_prophetic_iter_laws(),
            it.decrease() is Some,
            r@ + it.remaining() == s@,
        decreases it.decrease()->0,
    {
        match it.next() {
            Some(c) => {
                proof {
                    assert(r@.push(c) + it.remaining() =~= s@);
                }
                r.push(c);
            },
            None => {
                proof {
                    assert(r@ =~= s@);
                }
                return r;
            },
        }
    }
}

/// A single-pass reading position over a sequence of characters, with one
/// character of lookahead. Its view is the input that has not been consumed.
pub struct Cursor {
    chars: Vec<char>,
    pos: usize,
}

impl View for Cursor {
    type V = Seq<char>;

    closed spec fn view(&self) -> Seq<char> {
        self.chars@.subrange(self.pos as int, self.chars@.len() as int)
    }
}

impl Cursor {
    #[verifier::type_invariant]
    spec fn inv(&self) -> bool {
        self.pos <= self.chars.len()
    }

    /// A cursor at the start of `s`.
    pub fn new(s: &str) -> (c: Cursor)
        ensures
            c@ == s@,
    {
        let chars = chars_of(s);
        let c = Cursor { chars, pos: 0 };
        assert(c@ =~= s@);
        c
    }

    /// The next character, without consuming it.
    pub fn peek(&self) -> (r: Option<char>)
        ensures
            r == (if self@.len() == 0 { None::<char> } else { Some(self@[0]) }),
    {
        proof {
            use_type_invariant(self);
        }
        if self.pos < self.chars.len() {
            Some(self.chars[self.pos])
        } else {
            None
        }
    }

    /// Consumes and returns the next character; `None` once the input is exhausted.
    pub fn advance(&mut self) -> (r: Option<char>)
        ensures
            r == (if old(self)@.len() == 0 { None::<char> } else { Some(old(self)@[0]) }),
            final(self)@ == (if old(self)@.len() == 0 { old(self)@ } else { old(self)@.drop_first() }),
    {
        proof {
            use_type_invariant(&*self);
        }
        if self.pos < self.chars.len() {
            let c = self.chars[self.pos];
            self.pos = self.pos + 1;
            proof {
                assert(self@ =~= old(self)@.drop_first());
            }
            Some(c)
        } else {
            None
        }
    }
}

} // verus!
