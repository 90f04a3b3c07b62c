pub mod adynlist;
pub mod arena;
pub mod ast;
pub mod driver;
pub mod astring;
pub mod avec;
pub mod gst;
pub mod loader;
pub mod semantic;
pub mod parser;
pub mod tokenizer;
pub mod span;

use crate::span::bytes_eq;
use vstd::prelude::*;

verus! {

/// The set of candidate module paths already being parsed on the current
/// recursion frame; a module whose candidate file is here again is a cycle.
pub struct RecursiveGuard(pub Vec<Vec<u8>>);

/// Whether `guard` holds an entry equal to `path`.
pub open spec fn s_guard_contains(guard: Seq<Seq<u8>>, path: Seq<u8>) -> bool {
    exists|i: int| 0 <= i < guard.len() && guard[i] == path
}

impl RecursiveGuard {
    pub open spec fn view(&self) -> Seq<Seq<u8>> {
        self.0.deep_view()
    }

    pub fn new() -> (r: RecursiveGuard)
        ensures
            r@ == Seq::<Seq<u8>>::empty(),
    {
        let r = RecursiveGuard(Vec::new());
        proof {
            assert(r@ =~= Seq::<Seq<u8>>::empty());
        }
        r
    }

    pub fn contains(&self, input: &Vec<u8>) -> (r: bool)
        ensures
            r == s_guard_contains(self@, input@),
    {
        let mut i: usize = 0;
        while i < self.0.len()
            invariant
                0 <= i <= self.0@.len(),
                self@.len() == self.0@.len(),
                forall|j: int| 0 <= j < i ==> self@[j] != input@,
            decreases self.0@.len() - i,
        {
            proof {
                assert(self@[i as int] == self.0@[i as int]@);
            }
            if bytes_eq(&self.0[i], input) {
                return true;
            }
            i = i + 1;
        }
        false
    }

    pub fn push(&mut self, input: Vec<u8>)
        ensures
            final(self)@ == old(self)@.push(input@),
    {
        let ghost before = self@;
        let ghost b = input@;
        self.0.push(input);
        proof {
            assert forall|j: int| 0 <= j < self@.len() implies self@[j] == before.push(b)[j] by {
                assert(self@[j] == self.0@[j]@);
            }
            assert(self@ =~= before.push(b));
        }
    }
}

} // verus!
