use crate::arena::{ASpan, Arena, ArenaError};
use vstd::prelude::*;

verus! {

/// One cell of an arena-backed singly linked list.
#[derive(Debug)]
pub enum ListNode<T> {
    Empty,
    Node(T, ASpan<ListNode<T>>),
}

/// A singly linked list whose cells live in an arena: `first` is the head
/// cell, `mutate` the tail cell that the next push overwrites.
#[derive(Debug)]
pub struct ADynList<T> {
    pub first: ASpan<ListNode<T>>,
    pub mutate: ASpan<ListNode<T>>,
}

/// The values reachable from cell `at` in no more than `fuel` steps; `None`
/// when the walk leaves the arena or runs out of fuel (a well-formed list
/// ends at an `Empty` cell first).
pub open spec fn s_list_from<T>(data: Seq<ListNode<T>>, at: int, fuel: nat) -> Option<Seq<T>>
    decreases fuel,
{
    if fuel == 0 {
        None
    } else if !(0 <= at < data.len()) {
        None
    } else {
        match data[at] {
            ListNode::Empty => Some(Seq::empty()),
            ListNode::Node(v, nx) => match s_list_from(data, nx.val as int, (fuel - 1) as nat) {
                None => None,
                Some(rest) => Some(seq![v] + rest),
            },
        }
    }
}

/// The `Empty` cell such a walk ends at.
pub open spec fn s_tail_from<T>(data: Seq<ListNode<T>>, at: int, fuel: nat) -> Option<int>
    decreases fuel,
{
    if fuel == 0 {
        None
    } else if !(0 <= at < data.len()) {
        None
    } else {
        match data[at] {
            ListNode::Empty => Some(at),
            ListNode::Node(v, nx) => s_tail_from(data, nx.val as int, (fuel - 1) as nat),
        }
    }
}

/// A walk that ends has a tail, and the tail cell is `Empty`.
proof fn lemma_tail_shape<T>(data: Seq<ListNode<T>>, at: int, fuel: nat)
    requires
        s_list_from(data, at, fuel) is Some,
    ensures
        s_tail_from(data, at, fuel) matches Some(t) && 0 <= t < data.len() && data[t] is Empty,
    decreases fuel,
{
    if fuel > 0 && 0 <= at < data.len() {
        match data[at] {
            ListNode::Empty => {},
            ListNode::Node(v, nx) => {
                lemma_tail_shape(data, nx.val as int, (fuel - 1) as nat);
            },
        }
    }
}

/// More fuel never changes the outcome of a walk that already ends.
proof fn lemma_walk_fuel_mono<T>(data: Seq<ListNode<T>>, at: int, f1: nat, f2: nat)
    requires
        f1 <= f2,
        s_list_from(data, at, f1) is Some,
    ensures
        s_list_from(data, at, f2) == s_list_from(data, at, f1),
        s_tail_from(data, at, f2) == s_tail_from(data, at, f1),
    decreases f1,
{
    if f1 > 0 && 0 <= at < data.len() {
        match data[at] {
            ListNode::Empty => {},
            ListNode::Node(v, nx) => {
                lemma_walk_fuel_mono(data, nx.val as int, (f1 - 1) as nat, (f2 - 1) as nat);
            },
        }
    }
}

/// Overwriting the tail cell with a node that points at a freshly appended
/// `Empty` cell appends exactly one value to the walked contents.
proof fn lemma_push_cell<T>(data: Seq<ListNode<T>>, at: int, t: int, v: T, nx: ASpan<ListNode<T>>, fuel: nat)
    requires
        s_list_from(data, at, fuel) is Some,
        s_tail_from(data, at, fuel) == Some(t),
        nx.val == data.len(),
    ensures
        ({
            let data2 = data.push(ListNode::Empty).update(t, ListNode::Node(v, nx));
            &&& s_list_from(data2, at, (fuel + 1) as nat) == Some(
                s_list_from(data, at, fuel).unwrap().push(v),
            )
            &&& s_tail_from(data2, at, (fuel + 1) as nat) == Some(data.len() as int)
        }),
    decreases fuel,
{
    lemma_tail_shape(data, at, fuel);
    let data2 = data.push(ListNode::Empty).update(t, ListNode::Node(v, nx));
    match data[at] {
        ListNode::Empty => {
            assert(at == t);
            assert(data2[t] == ListNode::Node(v, nx));
            assert(data2[nx.val as int] == ListNode::<T>::Empty);
            assert(s_list_from(data2, nx.val as int, fuel) == Some(Seq::<T>::empty()));
            assert(s_tail_from(data2, nx.val as int, fuel) == Some(data.len() as int));
            assert(s_list_from(data, at, fuel).unwrap().push(v) =~= seq![v] + Seq::<T>::empty());
            assert(s_tail_from(data2, at, (fuel + 1) as nat) == Some(data.len() as int));
        },
        ListNode::Node(x, nx0) => {
            assert(at != t);
            assert(data2[at] == data[at]);
            lemma_push_cell(data, nx0.val as int, t, v, nx, (fuel - 1) as nat);
            let rest = s_list_from(data, nx0.val as int, (fuel - 1) as nat).unwrap();
            assert(s_list_from(data, at, fuel).unwrap() == seq![x] + rest);
            assert((seq![x] + rest).push(v) =~= seq![x] + rest.push(v));
            assert(s_list_from(data2, nx0.val as int, fuel) == Some(rest.push(v)));
            assert(s_list_from(data2, at, (fuel + 1) as nat) == Some(seq![x] + rest.push(v)));
            assert(s_tail_from(data2, nx0.val as int, fuel) == Some(data.len() as int));
            assert(s_tail_from(data2, at, (fuel + 1) as nat) == Some(data.len() as int));
        },
    }
}

impl<T> ADynList<T> {
    /// The list's contents as the arena currently holds them; `None` for a
    /// malformed chain that never reaches an `Empty` cell.
    pub open spec fn contents(&self, arena: Arena<ListNode<T>>) -> Option<Seq<T>> {
        s_list_from(arena@, self.first.val as int, arena@.len() + 1)
    }

    /// Well-formed on this arena: the walk from the head ends, and `mutate`
    /// names the `Empty` cell it ends at.
    pub open spec fn wf(&self, arena: Arena<ListNode<T>>) -> bool {
        &&& self.contents(arena) is Some
        &&& s_tail_from(arena@, self.first.val as int, arena@.len() + 1) == Some(
            self.mutate.val as int,
        )
    }

    /// A fresh empty list: one `Empty` cell, pointed at by both handles.
    pub fn new(arena: &mut Arena<ListNode<T>>) -> (r: Result<ADynList<T>, ArenaError>)
        ensures
            (if old(arena)@.len() < old(arena).spec_capacity() {
                r matches Ok(l) && l.first.val == old(arena)@.len() && l.mutate == l.first
                    && final(arena)@ == old(arena)@.push(ListNode::Empty) && l.wf(*final(arena))
                    && l.contents(*final(arena)) == Some(Seq::<T>::empty())
            } else {
                r == Err::<ADynList<T>, ArenaError>(ArenaError::OutOfMemory) && final(arena)@
                    == old(arena)@
            }),
    {
        match arena.allocate(ListNode::Empty) {
            Ok(h) => Ok(ADynList { first: h, mutate: h }),
            Err(e) => Err(e),
        }
    }

    /// Appends a value at the tail: the tail cell becomes a `Node` holding
    /// the value, pointing at a fresh `Empty` tail. The contents grow by
    /// exactly that value; the head handle and the values before it stay.
    pub fn push(&mut self, input: T, arena: &mut Arena<ListNode<T>>) -> (r: Result<
        (),
        ArenaError,
    >)
        requires
            old(self).wf(*old(arena)),
        ensures
            (if old(arena)@.len() < old(arena).spec_capacity() {
                &&& r == Ok::<(), ArenaError>(())
                &&& final(self).first == old(self).first
                &&& final(self).mutate.val == old(arena)@.len()
                &&& final(arena)@ == old(arena)@.push(ListNode::Empty).update(
                    old(self).mutate.val as int,
                    ListNode::Node(input, final(self).mutate),
                )
                &&& final(self).wf(*final(arena))
                &&& final(self).contents(*final(arena)) == Some(
                    old(self).contents(*old(arena)).unwrap().push(input),
                )
            } else {
                r == Err::<(), ArenaError>(ArenaError::OutOfMemory) && final(arena)@ == old(
                    arena,
                )@ && *final(self) == *old(self)
            }),
    {
        proof {
            lemma_tail_shape(old(arena)@, self.first.val as int, old(arena)@.len() + 1);
        }
        match arena.allocate(ListNode::Empty) {
            Ok(empty) => {
                proof {
                    lemma_push_cell(
                        old(arena)@,
                        old(self).first.val as int,
                        old(self).mutate.val as int,
                        input,
                        empty,
                        old(arena)@.len() + 1,
                    );
                }
                arena.set(self.mutate, ListNode::Node(input, empty));
                self.mutate = empty;
                proof {
                    lemma_walk_fuel_mono(
                        arena@,
                        self.first.val as int,
                        old(arena)@.len() + 2,
                        arena@.len() + 1,
                    );
                }
                Ok(())
            },
            Err(e) => Err(e),
        }
    }

    /// The head cell.
    pub fn first<'a>(&self, arena: &'a Arena<ListNode<T>>) -> (r: &'a ListNode<T>)
        requires
            self.first.val < arena@.len(),
        ensures
            *r == arena@[self.first.val as int],
    {
        arena.take(self.first)
    }

    /// A cursor over the list, starting at the head.
    pub fn iter<'a>(&'a self, arena: &'a Arena<ListNode<T>>) -> (r: ADynListIter<'a, T>)
        ensures
            r.current == self.first,
            r.arena == arena,
            r.steps == 0,
            iter_remaining(r) == self.contents(*arena),
    {
        ADynListIter { current: self.first, arena, steps: 0 }
    }
}

/// A cursor over an arena-backed list. It refuses to walk more steps than the
/// arena holds cells, so even a malformed, cyclic chain cannot make it spin.
pub struct ADynListIter<'a, T> {
    pub current: ASpan<ListNode<T>>,
    pub arena: &'a Arena<ListNode<T>>,
    pub steps: usize,
}

/// The values a cursor has yet to yield, walked with the fuel it has left;
/// `None` for a malformed chain.
pub open spec fn iter_remaining<T>(it: ADynListIter<T>) -> Option<Seq<T>> {
    if it.steps <= it.arena@.len() {
        s_list_from(it.arena@, it.current.val as int, (it.arena@.len() + 1 - it.steps) as nat)
    } else {
        None
    }
}

impl<'a, T: Clone> ADynListIter<'a, T> {
    /// The value under the cursor, advancing past it: over a well-formed
    /// list the cursor yields a clone of each stored value in insertion
    /// order, then `None`.
    pub fn next(&mut self) -> (r: Option<T>)
        ensures
            final(self).arena == old(self).arena,
            (match r {
                Some(_) => final(self).steps == old(self).steps + 1,
                None => *final(self) == *old(self),
            }),
            (match iter_remaining(*old(self)) {
                Some(l) => {
                    if l.len() > 0 {
                        r matches Some(v) && cloned::<T>(l[0], v) && iter_remaining(*final(self))
                            == Some(l.drop_first())
                    } else {
                        r is None
                    }
                },
                None => true,
            }),
    {
        if self.current.val >= self.arena.used() {
            proof {
                if let Some(l) = iter_remaining(*self) {
                    assert(l.len() == 0 || false);
                }
            }
            return None;
        }
        if self.steps >= self.arena.used() {
            proof {
                if let Some(l) = iter_remaining(*self) {
                    if l.len() > 0 {
                        let fuel = (self.arena@.len() + 1 - self.steps) as nat;
                        assert(fuel == 1);
                        match self.arena@[self.current.val as int] {
                            ListNode::Empty => {
                                assert(false);
                            },
                            ListNode::Node(v0, nx0) => {
                                assert(s_list_from(self.arena@, nx0.val as int, 0nat) is None);
                                assert(false);
                            },
                        }
                    }
                }
            }
            return None;
        }
        match self.arena.take(self.current) {
            ListNode::Empty => None,
            ListNode::Node(v, next) => {
                let out = v.clone();
                proof {
                    if let Some(l) = iter_remaining(*old(self)) {
                        if l.len() > 0 {
                            assert(l.drop_first() =~= s_list_from(
                                self.arena@,
                                next.val as int,
                                (self.arena@.len() + 1 - old(self).steps - 1) as nat,
                            ).unwrap());
                        }
                    }
                }
                self.current = ASpan::new(next.val);
                self.steps = self.steps + 1;
                Some(out)
            },
        }
    }
}

impl<T: Clone> ADynList<T> {
    /// Walks the list counting values: the whole count when the list holds no
    /// more than `input` values, and `input + 1` as soon as it holds more.
    fn count_up_to(&self, input: usize, arena: &Arena<ListNode<T>>) -> (r: usize)
        requires
            input < usize::MAX,
            self.contents(*arena) is Some,
        ensures
            ({
                let l = self.contents(*arena).unwrap();
                if l.len() <= input {
                    r == l.len()
                } else {
                    r == input + 1
                }
            }),
    {
        let ghost l = self.contents(*arena).unwrap();
        let mut it = self.iter(arena);
        let mut val: usize = 0;
        loop
            invariant
                it.arena == arena,
                input < usize::MAX,
                val <= input,
                val <= l.len(),
                l == self.contents(*arena).unwrap(),
                self.contents(*arena) is Some,
                iter_remaining(it) == Some(l.skip(val as int)),
            decreases l.len() - val,
        {
            match it.next() {
                Some(_) => {
                    proof {
                        assert(l.skip(val as int).drop_first() =~= l.skip(val + 1));
                    }
                    val = val + 1;
                    if val > input {
                        return val;
                    }
                },
                None => {
                    proof {
                        assert(l.skip(val as int).len() == 0);
                    }
                    return val;
                },
            }
        }
    }

    /// Whether the list holds exactly `input` values.
    pub fn len_eq(&self, input: usize, arena: &mut Arena<ListNode<T>>) -> (r: bool)
        requires
            input < usize::MAX,
            self.contents(*old(arena)) is Some,
        ensures
            *final(arena) == *old(arena),
            r == (self.contents(*old(arena)).unwrap().len() == input),
    {
        self.count_up_to(input, arena) == input
    }

    /// Whether the list holds more than `input` values.
    pub fn len_gt(&self, input: usize, arena: &mut Arena<ListNode<T>>) -> (r: bool)
        requires
            input < usize::MAX,
            self.contents(*old(arena)) is Some,
        ensures
            *final(arena) == *old(arena),
            r == (self.contents(*old(arena)).unwrap().len() > input),
    {
        self.count_up_to(input, arena) > input
    }

    /// Whether the list holds no more than `input` values: despite the name,
    /// the original answers "at most", as the negation of `len_gt`.
    pub fn len_lt(&self, input: usize, arena: &mut Arena<ListNode<T>>) -> (r: bool)
        requires
            input < usize::MAX,
            self.contents(*old(arena)) is Some,
        ensures
            *final(arena) == *old(arena),
            r == (self.contents(*old(arena)).unwrap().len() <= input),
    {
        !self.len_gt(input, arena)
    }
}

/// A minimal arena-backed linked-list cell, kept for callers that thread the
/// links themselves.
#[derive(Debug)]
pub struct ALinkedList<T> {
    pub current: T,
    pub next: Option<ASpan<T>>,
}

} // verus!
