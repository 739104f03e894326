use vstd::prelude::*;

verus! {

/// A type that is still to be found.
#[derive(Clone, Copy, Debug, PartialEq, Eq, Hash, Structural)]
pub struct Variable(pub u32);

/// The counter after it was advanced some times. Behind its largest value it starts over.
pub open spec fn advanced(counter: u32, times: nat) -> u32 {
    ((counter + times) % 0x1_0000_0000) as u32
}

/// Hands out type variables, one after the other.
#[derive(Debug)]
pub struct VarStore {
    next: u32,
}

impl View for VarStore {
    type V = u32;

    closed spec fn view(&self) -> u32 {
        self.next
    }
}

impl VarStore {
    /// A store whose first variable is the given one.
    pub fn new(first: Variable) -> (store: VarStore)
        ensures
            store@ == first.0,
    {
        VarStore { next: first.0 }
    }

    /// Takes the next variable. Behind the last one the first one comes again.
    pub fn fresh(&mut self) -> (variable: Variable)
        ensures
            variable == Variable(old(self)@),
            final(self)@ == advanced(old(self)@, 1),
    {
        let variable = Variable(self.next);
        self.next = self.next.wrapping_add(1);
        variable
    }
}

/// Advancing a counter some times and then some more times is advancing it
/// as often as both together.
pub proof fn advanced_adds_up(counter: u32, first: nat, second: nat)
    ensures
        advanced(advanced(counter, first), second) == advanced(counter, first + second),
{
}

/// Advancing a counter no times leaves it as it is, and once more adds one, except
/// behind its largest value, where it starts over.
pub proof fn advanced_counts_up(counter: u32, times: nat)
    ensures
        advanced(counter, 0) == counter,
        advanced(counter, times) == u32::MAX ==> advanced(counter, times + 1) == 0,
        advanced(counter, times) < u32::MAX ==> advanced(counter, times + 1) == advanced(
            counter,
            times,
        ) + 1,
{
}

} // verus!
