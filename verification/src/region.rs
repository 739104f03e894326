use vstd::prelude::*;

verus! {

/// A stretch of source text.
#[derive(Clone, Copy, Debug, PartialEq, Eq, Hash, Structural)]
pub struct Region {
    pub start_line: u32,
    pub end_line: u32,
    pub start_col: u16,
    pub end_col: u16,
}

/// A value together with the place in the source it came from.
#[derive(Debug, PartialEq, Eq)]
pub struct Located<T> {
    pub region: Region,
    pub value: T,
}

impl<T> Located<T> {
    pub fn at(region: Region, value: T) -> (located: Located<T>)
        ensures
            located == (Located { region, value }),
    {
        Located { region, value }
    }
}

impl<T: Clone> Clone for Located<T> {
    fn clone(&self) -> (copy: Self)
        ensures
            copy.region == self.region,
            cloned::<T>(self.value, copy.value),
    {
        Located { region: self.region, value: self.value.clone() }
    }
}

impl<T: View> View for Located<T> {
    type V = Located<T::V>;

    open spec fn view(&self) -> Located<T::V> {
        Located { region: self.region, value: self.value@ }
    }
}

} // verus!
