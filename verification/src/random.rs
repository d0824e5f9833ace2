//! A container that holds three values and hands out one of them chosen
//! at random on each draw. Which one comes back depends on the random
//! generator, so the contract promises only that the result is one of
//! the three.

use vstd::prelude::*;
use rand::Rng;

verus! {

/// Relies on `rand::thread_rng` and `Rng::gen_range`: a sample drawn
/// from the non-empty range `0..3` lies in it. Which index comes back
/// depends on the generator's state, so nothing more is assumed.
#[verifier::external_body]
fn random_index() -> (r: usize)
    ensures
        r < 3,
{
    rand::thread_rng().gen_range(0..3)
}

/// Holds three values; each draw picks one of them at random.
pub struct Random<T> {
    values: [T; 3],
}

impl<T> Random<T> {
    /// The three values a draw chooses among.
    pub closed spec fn choices(&self) -> Seq<T> {
        self.values@
    }

    /// Wrap three values.
    pub fn new(a: T, b: T, c: T) -> (r: Self)
        ensures
            r.choices() == seq![a, b, c],
    {
        let values = [a, b, c];
        assert(values@ =~= seq![a, b, c]);
        Random { values }
    }

    /// Wrap an array of three values.
    pub fn from(array: [T; 3]) -> (r: Self)
        ensures
            r.choices() == array@,
    {
        Random { values: array }
    }

    /// Draw one of the three values at random.
    pub fn pick(&self) -> (r: &T)
        ensures
            self.choices().contains(*r),
    {
        let i: usize = random_index();
        let r = &self.values[i];
        assert(self.choices()[i as int] == *r);
        r
    }
}

} // verus!
