use vstd::prelude::*;

verus! {

/// The extent of a matrix: a width (number of columns) and a height (number of rows).
#[derive(Debug, Clone, Copy, PartialEq, Eq, Structural)]
pub struct Dimension(isize, isize);

impl View for Dimension {
    type V = (int, int);

    /// `(width, height)`.
    closed spec fn view(&self) -> (int, int) {
        (self.0 as int, self.1 as int)
    }
}

impl Dimension {
    pub fn width(&self) -> (r: isize)
        ensures
            r == self@.0,
    {
        self.0
    }

    pub fn height(&self) -> (r: isize)
        ensures
            r == self@.1,
    {
        self.1
    }

    pub fn new(width: isize, height: isize) -> (r: Self)
        ensures
            r@ == (width as int, height as int),
    {
        Self(width, height)
    }

    /// The number of elements of a matrix of this shape.
    pub fn len(&self) -> (r: isize)
        requires
            isize::MIN <= self@.0 * self@.1 <= isize::MAX,
        ensures
            r == self@.0 * self@.1,
    {
        self.width() * self.height()
    }
}

} // verus!
