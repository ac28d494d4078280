use vstd::prelude::*;

use vstd::arithmetic::div_mod::lemma_div_by_multiple;

use super::indices::RowIndex;
use super::{in_extent, reflect_index, lemma_offset_in_bounds, MatrixContent, MatrixIter};

verus! {

/// A view of one column of a matrix.
pub struct MatrixColumn<'a, T> {
    pub(crate) mat: &'a MatrixContent<T>,
    pub(crate) col: isize,
}

impl<'a, T> MatrixColumn<'a, T> {
    pub(crate) fn new(mat: &'a MatrixContent<T>, col: isize) -> (r: Self)
        ensures
            r.matrix() == *mat,
            r.line() == col,
    {
        MatrixColumn { mat, col }
    }

    /// The matrix viewed.
    pub closed spec fn matrix(&self) -> MatrixContent<T> {
        *self.mat
    }

    /// The index of the column viewed, already reflected.
    pub closed spec fn line(&self) -> int {
        self.col as int
    }

    pub open spec fn wf(&self) -> bool {
        self.matrix().wf() && 0 <= self.line() < self.matrix().spec_width()
    }

    /// The elements of the column, from the first row to the last.
    pub open spec fn elements(&self) -> Seq<T> {
        Seq::new(
            self.matrix().spec_height() as nat,
            |r: int| self.matrix().at(r, self.line()),
        )
    }

    /// A walk over the column, from the first row to the last.
    pub fn iter(&'a self) -> (r: MatrixIter<'a, T>)
        requires
            self.wf(),
        ensures
            r.wf(),
            r.items() == self.elements(),
    {
        self.walk()
    }

    /// Consumes the view into a walk over the column, from the first row to the last.
    pub fn into_iter(self) -> (r: MatrixIter<'a, T>)
        requires
            self.wf(),
        ensures
            r.wf(),
            r.items() == self.elements(),
    {
        self.walk()
    }

    fn walk(&self) -> (r: MatrixIter<'a, T>)
        requires
            self.wf(),
        ensures
            r.wf(),
            r.items() == self.elements(),
    {
        let width = self.mat.width();
        let height = self.mat.height();
        if height == 0 {
            let r = MatrixIter { mat: self.mat, pos: 1, step: 1, end: 0 };
            assert(r.items() =~= self.elements());
            r
        } else {
            let ghost w = width as int;
            let ghost h = height as int;
            proof {
                lemma_offset_in_bounds(w, h, h - 1, self.col as int);
                assert(w <= w * h) by (nonlinear_arith)
                    requires
                        1 <= h,
                        0 <= w,
                ;
                lemma_div_by_multiple(h - 1, w);
            }
            let end = self.col + (height - 1) * width;
            let r = MatrixIter { mat: self.mat, pos: self.col as usize, step: width as usize, end: end as usize };
            assert(r.remaining() == h);
            assert(r.items() =~= self.elements());
            r
        }
    }

    /// The element at row `row` of the column; a negative row counts from the end.
    pub fn index(&self, row: isize) -> (r: &'a T)
        requires
            self.wf(),
            in_extent(self.matrix().spec_height(), row as int),
        ensures
            *r == self.matrix().entry(row as int, self.line()),
    {
        self.mat.index((row, self.col))
    }

    /// The element at the given row of the column; a negative row counts from the end.
    pub fn index_row(&self, row: RowIndex) -> (r: &'a T)
        requires
            self.wf(),
            in_extent(self.matrix().spec_height(), row@),
        ensures
            *r == self.matrix().entry(row@, self.line()),
    {
        self.mat.index((row.value(), self.col))
    }
}

/// The column that a possibly negative index names lists, row by row, what coordinate
/// access with that index gives.
pub proof fn lemma_column_matches_access<'a, T>(v: MatrixColumn<'a, T>, index: int)
    requires
        v.wf(),
        v.line() == reflect_index(v.matrix().spec_width(), index),
    ensures
        v.elements().len() == v.matrix().spec_height(),
        forall|c: int|
            0 <= c < v.matrix().spec_height() ==> #[trigger] v.elements()[c] == v.matrix().entry(c, index),
{
}

/// A cursor over the columns of a matrix, from the first to the last.
pub struct ColumnsIter<'a, T> {
    pub(crate) mat: &'a MatrixContent<T>,
    pub(crate) pos: isize,
}

impl<'a, T> ColumnsIter<'a, T> {
    pub(crate) fn new(mat: &'a MatrixContent<T>) -> (r: Self)
        ensures
            r.matrix() == *mat,
            r.position() == 0,
    {
        ColumnsIter { mat, pos: 0 }
    }

    /// The matrix whose columns are walked.
    pub closed spec fn matrix(&self) -> MatrixContent<T> {
        *self.mat
    }

    /// The index of the next column to be yielded.
    pub closed spec fn position(&self) -> int {
        self.pos as int
    }

    pub open spec fn wf(&self) -> bool {
        self.matrix().wf() && 0 <= self.position() <= self.matrix().spec_width()
    }

    /// Yields a view of the next column, or `None` after the last.
    pub fn next(&mut self) -> (r: Option<MatrixColumn<'a, T>>)
        requires
            old(self).wf(),
        ensures
            final(self).wf(),
            final(self).matrix() == old(self).matrix(),
            match r {
                Some(v) => {
                    &&& old(self).position() < old(self).matrix().spec_width()
                    &&& v.wf()
                    &&& v.matrix() == old(self).matrix()
                    &&& v.line() == old(self).position()
                    &&& final(self).position() == old(self).position() + 1
                },
                None => {
                    &&& old(self).position() == old(self).matrix().spec_width()
                    &&& final(self).position() == old(self).position()
                },
            },
    {
        if self.pos < self.mat.width() {
            let pos = self.pos;
            self.pos = self.pos + 1;
            Some(MatrixColumn { mat: self.mat, col: pos })
        } else {
            None
        }
    }
}

} // verus!
