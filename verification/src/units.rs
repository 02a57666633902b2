use vstd::prelude::*;

verus! {

/// A value anchored at the top-left corner of an image: pixel row numbers
/// grow downward from there.
pub struct FromTopLeft<T>(pub T);

/// A validated non-negative number.
pub struct Unsigned<N>(N);

impl Unsigned<i64> {
    /// The wrapped value.
    pub closed spec fn value(&self) -> int {
        self.0 as int
    }

    /// Accepts exactly the non-negative values.
    pub fn new(v: i64) -> (result: Option<Unsigned<i64>>)
        ensures
            result is Some <==> v >= 0,
            result matches Some(u) ==> u.value() == v,
    {
        if v >= 0 {
            Some(Unsigned(v))
        } else {
            None
        }
    }

    /// Hands the wrapped value back.
    pub fn read(&self) -> (v: i64)
        ensures
            v == self.value(),
    {
        self.0
    }
}

} // verus!
