use vstd::prelude::*;
use vstd::string::StringExecFns;
use vstd::string::StringSliceAdditionalSpecFns;

verus! {

#[derive(Debug, Clone, Copy, PartialEq, Eq, Structural)]
pub enum AStringError {
    BufFilled,
}

/// How many bytes a character occupies in UTF-8.
pub open spec fn char_utf8_len(c: char) -> nat {
    if (c as u32) < 0x80 {
        1
    } else if (c as u32) < 0x800 {
        2
    } else if (c as u32) < 0x10000 {
        3
    } else {
        4
    }
}

fn char_len(c: char) -> (r: usize)
    ensures
        r == char_utf8_len(c),
{
    let v = c as u32;
    if v < 0x80 {
        1
    } else if v < 0x800 {
        2
    } else if v < 0x10000 {
        3
    } else {
        4
    }
}

/// Relies on String::push: appends exactly the one character.
#[verifier::external_body]
fn string_push_char(s: &mut String, c: char)
    ensures
        final(s)@ == old(s)@.push(c),
{
    s.push(c);
}

/// A string with a compile-time byte capacity: pushes that would grow it past
/// the capacity are refused. `used` counts the bytes taken so far.
#[derive(Debug)]
pub struct AString<const SIZE: usize> {
    buf: String,
    index: usize,
}

impl<const SIZE: usize> AString<SIZE> {
    pub closed spec fn view(&self) -> Seq<char> {
        self.buf@
    }

    pub closed spec fn used(&self) -> usize {
        self.index
    }

    #[allow(clippy::new_without_default)]
    pub fn new() -> (r: AString<SIZE>)
        ensures
            r@ == Seq::<char>::empty(),
            r.used() == 0,
    {
        AString { buf: String::new(), index: 0 }
    }

    /// Appends one character; refused when its bytes would overflow the
    /// capacity.
    pub fn push(&mut self, input: char) -> (r: Result<(), AStringError>)
        ensures
            (if old(self).used() + char_utf8_len(input) <= SIZE {
                r == Ok::<(), AStringError>(()) && final(self)@ == old(self)@.push(input) && final(self).used() == old(self).used() + char_utf8_len(input)
            } else {
                r == Err::<(), AStringError>(AStringError::BufFilled) && final(self)@ == old(self)@
                    && final(self).used() == old(self).used()
            }),
    {
        let k = char_len(input);
        if k <= SIZE && self.index <= SIZE - k {
            string_push_char(&mut self.buf, input);
            self.index = self.index + k;
            Ok(())
        } else {
            Err(AStringError::BufFilled)
        }
    }

    /// Appends a string slice; refused when its bytes would overflow the
    /// capacity.
    pub fn push_str(&mut self, input: &str) -> (r: Result<(), AStringError>)
        ensures
            (if old(self).used() + input.spec_bytes().len() <= SIZE {
                r == Ok::<(), AStringError>(()) && final(self)@ == old(self)@ + input@ && final(self).used() == old(self).used() + input.spec_bytes().len()
            } else {
                r == Err::<(), AStringError>(AStringError::BufFilled) && final(self)@ == old(self)@
                    && final(self).used() == old(self).used()
            }),
    {
        let n = input.as_bytes().len();
        if n <= SIZE && self.index <= SIZE - n {
            self.buf.append(input);
            self.index = self.index + n;
            Ok(())
        } else {
            Err(AStringError::BufFilled)
        }
    }

    /// The accumulated characters.
    pub fn as_str(&self) -> (r: &str)
        ensures
            r@ == self@,
    {
        self.buf.as_str()
    }
}

} // verus!
