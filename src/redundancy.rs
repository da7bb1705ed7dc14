use vstd::laws_eq::obeys_concrete_eq;
use vstd::prelude::*;

verus! {

/// Three copies of a small value kept side by side, so that a copy changed
/// behind the program's back (a flipped memory bit) is noticed on read
/// instead of being served as the truth.
#[derive(Debug, Clone, Copy, PartialEq, Eq)]
pub struct Redundant<T: Eq + Copy> {
    a: T,
    b: T,
    c: T,
}

impl<T: Eq + Copy> Redundant<T> {
    /// The three stored copies.
    pub closed spec fn copies(&self) -> (T, T, T) {
        (self.a, self.b, self.c)
    }

    /// All three copies agree.
    pub open spec fn wf(&self) -> bool {
        self.copies().0 == self.copies().1 && self.copies().1 == self.copies().2
    }

    /// The guarded value: the first copy, which is the value whenever `wf` holds.
    pub open spec fn view(&self) -> T {
        self.copies().0
    }

    /// Stores `v` three times.
    pub fn new(v: T) -> (r: Self)
        ensures
            r.copies() == (v, v, v),
            r.wf(),
            r@ == v,
    {
        Self { a: v, b: v, c: v }
    }

    /// Rebuilds a guarded value from three copies as they were found, for
    /// instance read back from storage; they need not agree.
    pub fn from_copies(a: T, b: T, c: T) -> (r: Self)
        ensures
            r.copies() == (a, b, c),
    {
        Self { a, b, c }
    }

    /// Compares the three copies: the value when they all agree, `None` when
    /// any of them differs (the memory holding them was corrupted).
    pub fn read(&self) -> (r: Option<T>)
        requires
            obeys_concrete_eq::<T>(),
        ensures
            r == (if self.wf() { Some(self@) } else { None::<T> }),
    {
        proof {
            reveal(obeys_concrete_eq);
        }
        if self.a == self.b && self.b == self.c {
            Some(self.a)
        } else {
            None
        }
    }

    /// The value of a guarded value whose copies agree.
    pub fn get(&self) -> (r: T)
        requires
            self.wf(),
        ensures
            r == self@,
    {
        self.a
    }
}

/// A value stored with `new` reads back exactly; copies that do not all
/// agree read back as nothing.
pub proof fn lemma_read_back<T: Eq + Copy>(r: Redundant<T>, x: T)
    ensures
        r.copies() == (x, x, x) ==> r.wf() && r@ == x,
        (r.copies().0 != r.copies().1 || r.copies().1 != r.copies().2) ==> !r.wf(),
{
}

} // verus!
