use vstd::prelude::*;

verus! {

/// An index of a row; a negative value counts from the last row.
pub struct RowIndex(pub(crate) isize);

/// An index of a column; a negative value counts from the last column.
pub struct ColumnIndex(pub(crate) isize);

/// A `(row, col)` coordinate; negative values count from the end.
pub struct MatrixIndex(pub(crate) isize, pub(crate) isize);

impl View for RowIndex {
    type V = int;

    closed spec fn view(&self) -> int {
        self.0 as int
    }
}

impl View for ColumnIndex {
    type V = int;

    closed spec fn view(&self) -> int {
        self.0 as int
    }
}

impl View for MatrixIndex {
    type V = (int, int);

    closed spec fn view(&self) -> (int, int) {
        (self.0 as int, self.1 as int)
    }
}

impl RowIndex {
    pub fn new(value: isize) -> (r: Self)
        ensures
            r@ == value,
    {
        RowIndex(value)
    }

    pub fn value(&self) -> (r: isize)
        ensures
            r == self@,
    {
        self.0
    }
}

impl ColumnIndex {
    pub fn new(value: isize) -> (r: Self)
        ensures
            r@ == value,
    {
        ColumnIndex(value)
    }

    pub fn value(&self) -> (r: isize)
        ensures
            r == self@,
    {
        self.0
    }
}

impl MatrixIndex {
    pub fn new(row: isize, col: isize) -> (r: Self)
        ensures
            r@ == (row as int, col as int),
    {
        MatrixIndex(row, col)
    }

    pub fn row(&self) -> (r: isize)
        ensures
            r == self@.0,
    {
        self.0
    }

    pub fn col(&self) -> (r: isize)
        ensures
            r == self@.1,
    {
        self.1
    }
}

impl From<isize> for RowIndex {
    fn from(value: isize) -> (r: Self)
        ensures
            r@ == value,
    {
        Self(value)
    }
}

impl vstd::std_specs::convert::FromSpecImpl<isize> for RowIndex {
    open spec fn obeys_from_spec() -> bool {
        true
    }

    closed spec fn from_spec(v: isize) -> Self {
        RowIndex(v)
    }
}

impl From<isize> for ColumnIndex {
    fn from(value: isize) -> (r: Self)
        ensures
            r@ == value,
    {
        Self(value)
    }
}

impl vstd::std_specs::convert::FromSpecImpl<isize> for ColumnIndex {
    open spec fn obeys_from_spec() -> bool {
        true
    }

    closed spec fn from_spec(v: isize) -> Self {
        ColumnIndex(v)
    }
}

} // verus!
