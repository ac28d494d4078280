use vstd::prelude::*;

use super::indices::ColumnIndex;
use super::{in_extent, reflect_index, lemma_offset_in_bounds, MatrixContent, MatrixIter};

verus! {

/// A view of one row of a matrix.
pub struct MatrixRow<'a, T> {
    pub(crate) mat: &'a MatrixContent<T>,
    pub(crate) row: isize,
}

impl<'a, T> MatrixRow<'a, T> {
    pub(crate) fn new(mat: &'a MatrixContent<T>, row: isize) -> (r: Self)
        ensures
            r.matrix() == *mat,
            r.line() == row,
    {
        MatrixRow { mat, row }
    }

    /// The matrix viewed.
    pub closed spec fn matrix(&self) -> MatrixContent<T> {
        *self.mat
    }

    /// The index of the row viewed, already reflected.
    pub closed spec fn line(&self) -> int {
        self.row as int
    }

    pub open spec fn wf(&self) -> bool {
        self.matrix().wf() && 0 <= self.line() < self.matrix().spec_height()
    }

    /// The elements of the row, from the first column to the last.
    pub open spec fn elements(&self) -> Seq<T> {
        Seq::new(
            self.matrix().spec_width() as nat,
            |c: int| self.matrix().at(self.line(), c),
        )
    }

    /// A walk over the row, from the first column to the last.
    pub fn iter(&'a self) -> (r: MatrixIter<'a, T>)
        requires
            self.wf(),
        ensures
            r.wf(),
            r.items() == self.elements(),
    {
        self.walk()
    }

    /// Consumes the view into a walk over the row, from the first column to the last.
    pub fn into_iter(self) -> (r: MatrixIter<'a, T>)
        requires
            self.wf(),
        ensures
            r.wf(),
            r.items() == self.elements(),
    {
        self.walk()
    }

    fn walk(&self) -> (r: MatrixIter<'a, T>)
        requires
            self.wf(),
        ensures
            r.wf(),
            r.items() == self.elements(),
    {
        let width = self.mat.width();
        if width == 0 {
            let r = MatrixIter { mat: self.mat, pos: 1, step: 1, end: 0 };
            assert(r.items() =~= self.elements());
            r
        } else {
            let ghost w = width as int;
            let ghost h = self.mat.spec_height();
            proof {
                lemma_offset_in_bounds(w, h, self.row as int, w - 1);
            }
            let pos = (self.row * width) as usize;
            let end = pos + width as usize - 1;
            let r = MatrixIter { mat: self.mat, pos, step: 1, end };
            assert forall|k: int| 0 <= k < r.items().len() implies r.items()[k]
                == self.elements()[k] by {
                assert(k * 1 == k);
            }
            assert(r.items() =~= self.elements());
            r
        }
    }

    /// The element at column `col` of the row; a negative column counts from the end.
    pub fn index(&self, col: isize) -> (r: &'a T)
        requires
            self.wf(),
            in_extent(self.matrix().spec_width(), col as int),
        ensures
            *r == self.matrix().entry(self.line(), col as int),
    {
        self.mat.index((self.row, col))
    }

    /// The element at the given column of the row; a negative column counts from the end.
    pub fn index_column(&self, col: ColumnIndex) -> (r: &'a T)
        requires
            self.wf(),
            in_extent(self.matrix().spec_width(), col@),
        ensures
            *r == self.matrix().entry(self.line(), col@),
    {
        self.mat.index((self.row, col.value()))
    }
}

/// The row that a possibly negative index names lists, column by column, what coordinate
/// access with that index gives.
pub proof fn lemma_row_matches_access<'a, T>(v: MatrixRow<'a, T>, index: int)
    requires
        v.wf(),
        v.line() == reflect_index(v.matrix().spec_height(), index),
    ensures
        v.elements().len() == v.matrix().spec_width(),
        forall|c: int|
            0 <= c < v.matrix().spec_width() ==> #[trigger] v.elements()[c] == v.matrix().entry(index, c),
{
}

/// A cursor over the rows of a matrix, from the first to the last.
pub struct RowsIter<'a, T> {
    pub(crate) mat: &'a MatrixContent<T>,
    pub(crate) pos: isize,
}

impl<'a, T> RowsIter<'a, T> {
    pub(crate) fn new(mat: &'a MatrixContent<T>) -> (r: Self)
        ensures
            r.matrix() == *mat,
            r.position() == 0,
    {
        RowsIter { mat, pos: 0 }
    }

    /// The matrix whose rows are walked.
    pub closed spec fn matrix(&self) -> MatrixContent<T> {
        *self.mat
    }

    /// The index of the next row to be yielded.
    pub closed spec fn position(&self) -> int {
        self.pos as int
    }

    pub open spec fn wf(&self) -> bool {
        self.matrix().wf() && 0 <= self.position() <= self.matrix().spec_height()
    }

    /// Yields a view of the next row, or `None` after the last.
    pub fn next(&mut self) -> (r: Option<MatrixRow<'a, T>>)
        requires
            old(self).wf(),
        ensures
            final(self).wf(),
            final(self).matrix() == old(self).matrix(),
            match r {
                Some(v) => {
                    &&& old(self).position() < old(self).matrix().spec_height()
                    &&& v.wf()
                    &&& v.matrix() == old(self).matrix()
                    &&& v.line() == old(self).position()
                    &&& final(self).position() == old(self).position() + 1
                },
                None => {
                    &&& old(self).position() == old(self).matrix().spec_height()
                    &&& final(self).position() == old(self).position()
                },
            },
    {
        if self.pos < self.mat.height() {
            let pos = self.pos;
            self.pos = self.pos + 1;
            Some(MatrixRow { mat: self.mat, row: pos })
        } else {
            None
        }
    }
}

} // verus!
