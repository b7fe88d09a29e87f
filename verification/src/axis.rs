//! The three spatial axes.

use vstd::prelude::*;
use vstd::std_specs::iter::IteratorSpec;

verus! {

/// One of the three primary axes of space.
#[derive(Debug, Clone, Copy, PartialEq, Eq, Structural)]
pub enum Axis {
    /// Left to right.
    X,
    /// Bottom to top.
    Y,
    /// Back to front.
    Z,
}

impl Axis {
    /// The axes in their canonical order.
    pub open spec fn all() -> Seq<Axis> {
        seq![Axis::X, Axis::Y, Axis::Z]
    }

    /// The position of this axis in the canonical order.
    pub open spec fn spec_index(self) -> int {
        match self {
            Axis::X => 0,
            Axis::Y => 1,
            Axis::Z => 2,
        }
    }

    /// An iterator over the three axes, in the order X, Y, Z.
    pub fn iter() -> (it: std::vec::IntoIter<Axis>)
        ensures
            it.remaining() == Axis::all(),
            it.obeys_prophetic_iter_laws(),
    {
        broadcast use vstd::std_specs::vec::axiom_spec_into_iter;
        let axes: Vec<Axis> = vec![Axis::X, Axis::Y, Axis::Z];
        assert(axes@ =~= Axis::all());
        axes.into_iter()
    }

    /// The position of this axis in the canonical order: 0, 1 or 2.
    pub fn index(self) -> (i: usize)
        ensures
            i == self.spec_index(),
            Axis::all()[i as int] == self,
    {
        match self {
            Axis::X => 0,
            Axis::Y => 1,
            Axis::Z => 2,
        }
    }
}

/// Every axis occurs in the canonical order, at its own index, and nowhere else.
pub proof fn lemma_axes_complete(a: Axis)
    ensures
        Axis::all().len() == 3,
        0 <= a.spec_index() < 3,
        Axis::all()[a.spec_index()] == a,
        forall|i: int| 0 <= i < 3 && Axis::all()[i] == a ==> i == a.spec_index(),
{
}

} // verus!
