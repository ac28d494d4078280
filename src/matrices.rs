pub mod columns;
pub mod indices;
pub mod ops;
pub mod rows;

use vstd::prelude::*;

use vstd::arithmetic::div_mod::{
    lemma_basic_div, lemma_div_plus_one, lemma_div_pos_is_pos, lemma_fundamental_div_mod,
    lemma_mod_pos_bound,
};

use crate::dimension::Dimension;
use self::indices::{ColumnIndex, MatrixIndex, RowIndex};
use self::columns::{ColumnsIter, MatrixColumn};
use self::rows::{MatrixRow, RowsIter};

verus! {

/// Maps a possibly negative index onto `[0, extent)`: `-1` is the last position.
pub open spec fn reflect_index(extent: int, i: int) -> int {
    if i < 0 {
        extent + i
    } else {
        i
    }
}

/// Whether index `i` names a position of a line of length `extent`, once reflected.
pub open spec fn in_extent(extent: int, i: int) -> bool {
    0 <= reflect_index(extent, i) < extent
}

/// The flat, row-major offset of `(row, col)` in a buffer of the given width.
pub open spec fn offset_of(width: int, row: int, col: int) -> int {
    col + row * width
}

/// A cell of a `width` by `height` grid lies inside the buffer of `width * height` cells.
pub proof fn lemma_offset_in_bounds(width: int, height: int, row: int, col: int)
    requires
        0 <= row < height,
        0 <= col < width,
    ensures
        0 <= offset_of(width, row, col) < width * height,
        row * width <= offset_of(width, row, col),
{
    assert(0 <= row * width) by (nonlinear_arith)
        requires
            0 <= row,
            0 <= col < width,
    ;
    assert(row * width + width <= width * height) by (nonlinear_arith)
        requires
            0 <= row < height,
            0 <= col < width,
    ;
}

/// A negative index `-k` with `1 <= k <= extent` names the same position as `extent - k`.
pub proof fn lemma_reflect_negative(extent: int, k: int)
    requires
        1 <= k <= extent,
    ensures
        in_extent(extent, -k),
        in_extent(extent, extent - k),
        reflect_index(extent, -k) == reflect_index(extent, extent - k),
{
}

/// In a matrix, row `-k` is row `height - k` and column `-k` is column `width - k`,
/// for every `k` from 1 to the extent.
pub proof fn lemma_negative_index_reflects<T>(m: MatrixContent<T>, k: int, row: int, col: int)
    requires
        m.wf(),
    ensures
        1 <= k <= m.spec_height() ==> m.valid_index(-k, col) == m.valid_index(
            m.spec_height() - k,
            col,
        ) && m.entry(-k, col) == m.entry(m.spec_height() - k, col),
        1 <= k <= m.spec_width() ==> m.valid_index(row, -k) == m.valid_index(
            row,
            m.spec_width() - k,
        ) && m.entry(row, -k) == m.entry(row, m.spec_width() - k),
{
}

/// Reading every coordinate of a matrix in row-major order gives back its elements in
/// storage order, which are those it was built from.
pub proof fn lemma_row_major_round_trip<T>(m: MatrixContent<T>)
    requires
        m.wf(),
    ensures
        Seq::new(
            m@.len(),
            |i: int| m.entry(i / m.spec_width(), i % m.spec_width()),
        ) == m@,
        forall|i: int|
            0 <= i < m@.len() ==> m.valid_index(
                #[trigger] (i / m.spec_width()),
                i % m.spec_width(),
            ),
{
    let w = m.spec_width();
    let h = m.spec_height();
    if w == 0 {
        assert(m@.len() == 0);
    }
    assert forall|i: int| 0 <= i < m@.len() implies m.valid_index(#[trigger] (i / w), i % w)
        && m.entry(i / w, i % w) == m@[i] by {
        lemma_fundamental_div_mod(i, w);
        lemma_mod_pos_bound(i, w);
        lemma_div_pos_is_pos(i, w);
        let q = i / w;
        let r = i % w;
        assert(q < h) by (nonlinear_arith)
            requires
                i == w * q + r,
                0 <= r,
                i < w * h,
                0 < w,
        ;
        assert(w * q == q * w) by (nonlinear_arith);
    }
    assert(Seq::new(m@.len(), |i: int| m.entry(i / w, i % w)) =~= m@);
}

/// A matrix built from a shape and a matching sequence of elements (what `new` returns)
/// reads back, at each coordinate `(r, c)`, element `c + r * width` of that sequence, and
/// reading every coordinate in row-major order reproduces the sequence exactly.
pub proof fn lemma_construction_round_trip<T>(
    m: MatrixContent<T>,
    width: int,
    height: int,
    elements: Seq<T>,
)
    requires
        0 <= width,
        0 <= height,
        elements.len() == width * height,
        m.wf(),
        m.shape() == (width, height),
        m@ == elements,
    ensures
        forall|r: int, c: int|
            0 <= r < height && 0 <= c < width ==> m.valid_index(r, c) && #[trigger] m.entry(r, c)
                == elements[c + r * width],
        Seq::new(elements.len(), |i: int| m.entry(i / width, i % width)) == elements,
{
    lemma_row_major_round_trip(m);
}

/// The rows laid end to end.
pub open spec fn flatten<T>(rows: Seq<Vec<T>>) -> Seq<T>
    decreases rows.len(),
{
    if rows.len() == 0 {
        Seq::empty()
    } else {
        rows[0]@ + flatten(rows.drop_first())
    }
}

/// Every row holds exactly `width` elements.
pub open spec fn uniform<T>(rows: Seq<Vec<T>>, width: int) -> bool {
    forall|i: int| 0 <= i < rows.len() ==> #[trigger] rows[i]@.len() == width
}

/// Rows of one width, laid end to end, put element `c` of row `r` at offset `c + r * width`.
pub proof fn lemma_flatten_uniform<T>(rows: Seq<Vec<T>>, width: int)
    requires
        0 <= width,
        uniform(rows, width),
    ensures
        flatten(rows).len() == rows.len() * width,
        forall|r: int, c: int|
            0 <= r < rows.len() && 0 <= c < width ==> #[trigger] flatten(rows)[offset_of(
                width,
                r,
                c,
            )] == rows[r]@[c],
    decreases rows.len(),
{
    if rows.len() > 0 {
        let tail = rows.drop_first();
        assert(uniform(tail, width)) by {
            assert forall|i: int| 0 <= i < tail.len() implies #[trigger] tail[i]@.len()
                == width by {
                assert(tail[i] == rows[i + 1]);
            }
        }
        lemma_flatten_uniform(tail, width);
        let n = rows.len() as int;
        assert(rows[0]@.len() == width);
        assert((n - 1) * width + width == n * width) by (nonlinear_arith);
        assert forall|r: int, c: int| 0 <= r < rows.len() && 0 <= c < width implies #[trigger] flatten(
            rows,
        )[offset_of(width, r, c)] == rows[r]@[c] by {
            if r > 0 {
                assert((r - 1) * width + width == r * width) by (nonlinear_arith);
                lemma_offset_in_bounds(width, n - 1, r - 1, c);
                assert(flatten(tail)[offset_of(width, r - 1, c)] == tail[r - 1]@[c]);
            }
        }
    }
}

/// An owning matrix: its shape and a flat, row-major buffer of `width * height` elements.
#[derive(Clone, PartialEq, Eq, Debug)]
pub struct Matrix<T> {
    pub content: MatrixContent<T>,
}

/// The storage of a matrix: a shape and a row-major buffer, whose length is fixed at
/// `width * height` for the lifetime of the value.
#[derive(Clone, PartialEq, Eq, Debug)]
pub struct MatrixContent<T> {
    dimension: Dimension,
    buffer: Vec<T>,
}

/// The failure of building a matrix from rows of unequal lengths.
#[derive(Debug, Clone, Copy, PartialEq, Eq, Structural)]
pub struct MisAlignment;

impl<T> Matrix<T> {
    pub open spec fn wf(&self) -> bool {
        self.content.wf()
    }

    pub fn from_content(content: MatrixContent<T>) -> (r: Self)
        ensures
            r.content == content,
    {
        Self { content }
    }

    pub fn width(&self) -> (r: isize)
        ensures
            r == self.content.spec_width(),
    {
        self.content.width()
    }

    pub fn height(&self) -> (r: isize)
        ensures
            r == self.content.spec_height(),
    {
        self.content.height()
    }

    /// The rows, from the first to the last.
    pub fn rows(&self) -> (r: RowsIter<'_, T>)
        requires
            self.wf(),
        ensures
            r.wf(),
            r.matrix() == self.content,
            r.position() == 0,
    {
        self.content.rows()
    }

    /// The columns, from the first to the last.
    pub fn columns(&self) -> (r: ColumnsIter<'_, T>)
        requires
            self.wf(),
        ensures
            r.wf(),
            r.matrix() == self.content,
            r.position() == 0,
    {
        self.content.columns()
    }

    /// Builds a matrix from its rows, which must all hold as many elements as the first;
    /// rows of unequal lengths give `MisAlignment`.
    pub fn try_from(value: Vec<Vec<T>>) -> (r: Result<Self, MisAlignment>)
        requires
            value@.len() > 0,
            value@.len() <= isize::MAX,
            value@.len() * value@[0]@.len() <= isize::MAX,
        ensures
            match r {
                Ok(m) => {
                    &&& uniform(value@, value@[0]@.len() as int)
                    &&& m.wf()
                    &&& m.content.shape() == (value@[0]@.len() as int, value@.len() as int)
                    &&& m.content@ == flatten(value@)
                    &&& forall|row: int, col: int|
                        0 <= row < m.content.spec_height() && 0 <= col < m.content.spec_width()
                            ==> #[trigger] m.content.at(row, col) == value@[row]@[col]
                },
                Err(e) => !uniform(value@, value@[0]@.len() as int),
            },
    {
        match MatrixContent::try_from(value) {
            Ok(content) => Ok(Matrix { content }),
            Err(e) => Err(e),
        }
    }
}

impl<T> std::ops::Deref for Matrix<T> {
    type Target = MatrixContent<T>;

    fn deref(&self) -> (r: &MatrixContent<T>)
        ensures
            *r == self.content,
    {
        &self.content
    }
}

impl<T> std::ops::DerefMut for Matrix<T> {
    fn deref_mut(&mut self) -> (r: &mut MatrixContent<T>)
        ensures
            *r == old(self).content,
            final(self).content == *final(r),
    {
        &mut self.content
    }
}

impl<T> View for MatrixContent<T> {
    type V = Seq<T>;

    /// The elements in storage (row-major) order.
    closed spec fn view(&self) -> Seq<T> {
        self.buffer@
    }
}

impl<T> MatrixContent<T> {
    /// `(width, height)`.
    pub closed spec fn shape(&self) -> (int, int) {
        self.dimension@
    }

    pub open spec fn spec_width(&self) -> int {
        self.shape().0
    }

    pub open spec fn spec_height(&self) -> int {
        self.shape().1
    }

    /// The buffer holds exactly `width * height` elements, and that count fits an `isize`.
    pub open spec fn wf(&self) -> bool {
        &&& 0 <= self.spec_width()
        &&& 0 <= self.spec_height()
        &&& self@.len() == self.spec_width() * self.spec_height()
        &&& self@.len() <= isize::MAX
    }

    /// The element at an already reflected, in-range coordinate.
    pub open spec fn at(&self, row: int, col: int) -> T {
        self@[offset_of(self.spec_width(), row, col)]
    }

    /// Whether `(row, col)`, once reflected, lies inside the matrix.
    pub open spec fn valid_index(&self, row: int, col: int) -> bool {
        in_extent(self.spec_height(), row) && in_extent(self.spec_width(), col)
    }

    /// The element named by a possibly negative coordinate.
    pub open spec fn entry(&self, row: int, col: int) -> T {
        self.at(reflect_index(self.spec_height(), row), reflect_index(self.spec_width(), col))
    }

    /// Builds a matrix of the given shape from its elements in row-major order.
    pub fn new(dimension: Dimension, buffer: Vec<T>) -> (r: Self)
        requires
            0 <= dimension@.0,
            0 <= dimension@.1,
            buffer@.len() == dimension@.0 * dimension@.1,
            buffer@.len() <= isize::MAX,
        ensures
            r.wf(),
            r.shape() == dimension@,
            r@ == buffer@,
    {
        Self { dimension, buffer }
    }

    /// Builds a matrix from its rows, which must all hold as many elements as the first;
    /// rows of unequal lengths give `MisAlignment`.
    pub fn try_from(value: Vec<Vec<T>>) -> (r: Result<Self, MisAlignment>)
        requires
            value@.len() > 0,
            value@.len() <= isize::MAX,
            value@.len() * value@[0]@.len() <= isize::MAX,
        ensures
            match r {
                Ok(m) => {
                    &&& uniform(value@, value@[0]@.len() as int)
                    &&& m.wf()
                    &&& m.shape() == (value@[0]@.len() as int, value@.len() as int)
                    &&& m@ == flatten(value@)
                    &&& forall|row: int, col: int|
                        0 <= row < m.spec_height() && 0 <= col < m.spec_width()
                            ==> #[trigger] m.at(row, col) == value@[row]@[col]
                },
                Err(e) => !uniform(value@, value@[0]@.len() as int),
            },
    {
        let width = value[0].len();
        let height = value.len();
        let mut i: usize = 0;
        while i < height
            invariant
                height == value@.len(),
                width == value@[0]@.len(),
                forall|j: int| 0 <= j < i ==> #[trigger] value@[j]@.len() == width,
            decreases height - i,
        {
            if value[i].len() != width {
                return Err(MisAlignment);
            }
            i = i + 1;
        }
        let ghost rows = value@;
        proof {
            lemma_flatten_uniform(rows, width as int);
            let (w, h) = (width as int, height as int);
            assert(h * w == w * h && w <= w * h) by (nonlinear_arith)
                requires
                    1 <= h,
                    0 <= w,
            ;
        }
        let mut rest = value;
        let mut flat: Vec<T> = Vec::new();
        assert(rows.subrange(rows.len() as int, rows.len() as int) =~= Seq::<Vec<T>>::empty());
        while rest.len() > 0
            invariant
                rest@ == rows.subrange(0, rest@.len() as int),
                rest@.len() <= rows.len(),
                flat@ == flatten(rows.subrange(rest@.len() as int, rows.len() as int)),
            decreases rest@.len(),
        {
            let k = rest.len();
            match rest.pop() {
                Some(mut row) => {
                    let ghost tail = rows.subrange(k as int, rows.len() as int);
                    assert(rows.subrange(k - 1, rows.len() as int).drop_first() =~= tail);
                    assert(rest@ =~= rows.subrange(0, k - 1));
                    row.append(&mut flat);
                    flat = row;
                },
                None => {},
            }
        }
        assert(rows.subrange(0, rows.len() as int) =~= rows);
        let r = Self::new(Dimension::new(width as isize, height as isize), flat);
        proof {
            assert forall|row: int, col: int|
                0 <= row < r.spec_height() && 0 <= col < r.spec_width() implies #[trigger] r.at(
                row,
                col,
            ) == rows[row]@[col] by {
                lemma_offset_in_bounds(width as int, height as int, row, col);
                assert(flatten(rows)[offset_of(width as int, row, col)] == rows[row]@[col]);
            }
        }
        Ok(r)
    }

    pub fn width(&self) -> (r: isize)
        ensures
            r == self.spec_width(),
    {
        self.dimension.width()
    }

    pub fn height(&self) -> (r: isize)
        ensures
            r == self.spec_height(),
    {
        self.dimension.height()
    }

    pub fn dimension(&self) -> (r: Dimension)
        ensures
            r@ == self.shape(),
    {
        self.dimension
    }

    fn reflect_row(&self, row: isize) -> (r: isize)
        requires
            self.wf(),
        ensures
            r == reflect_index(self.spec_height(), row as int),
    {
        if row < 0 {
            self.dimension.height() + row
        } else {
            row
        }
    }

    fn reflect_col(&self, col: isize) -> (r: isize)
        requires
            self.wf(),
        ensures
            r == reflect_index(self.spec_width(), col as int),
    {
        if col < 0 {
            self.dimension.width() + col
        } else {
            col
        }
    }

    fn reflect(&self, index: (isize, isize)) -> (r: (isize, isize))
        requires
            self.wf(),
        ensures
            r.0 == reflect_index(self.spec_height(), index.0 as int),
            r.1 == reflect_index(self.spec_width(), index.1 as int),
    {
        (self.reflect_row(index.0), self.reflect_col(index.1))
    }

    /// The flat offset of a reflected, in-range coordinate.
    fn offset(&self, row: isize, col: isize) -> (r: usize)
        requires
            self.wf(),
            0 <= row < self.spec_height(),
            0 <= col < self.spec_width(),
        ensures
            r == offset_of(self.spec_width(), row as int, col as int),
            r < self@.len(),
    {
        proof {
            lemma_offset_in_bounds(self.spec_width(), self.spec_height(), row as int, col as int);
        }
        col as usize + (row * self.dimension.width()) as usize
    }

    /// The element at `(row, col)`; negative coordinates count from the end.
    /// The coordinate must lie inside the matrix once reflected.
    pub fn index(&self, index: (isize, isize)) -> (r: &T)
        requires
            self.wf(),
            self.valid_index(index.0 as int, index.1 as int),
        ensures
            *r == self.entry(index.0 as int, index.1 as int),
    {
        let (row, col) = self.reflect(index);
        let i = self.offset(row, col);
        &self.buffer[i]
    }

    /// The element at a flat position of the buffer; a negative position counts from the end.
    pub fn index_flat(&self, index: isize) -> (r: &T)
        requires
            self.wf(),
            in_extent(self@.len() as int, index as int),
        ensures
            *r == self@[reflect_index(self@.len() as int, index as int)],
    {
        let i = if index < 0 {
            self.dimension.len() + index
        } else {
            index
        };
        &self.buffer[i as usize]
    }

    /// A mutable reference to the element at `(row, col)`; negative coordinates count from
    /// the end. The coordinate must lie inside the matrix once reflected.
    pub fn index_mut(&mut self, index: (isize, isize)) -> (r: &mut T)
        requires
            old(self).wf(),
            old(self).valid_index(index.0 as int, index.1 as int),
        ensures
            *r == old(self).entry(index.0 as int, index.1 as int),
            final(self).shape() == old(self).shape(),
            final(self)@ == old(self)@.update(
                offset_of(
                    old(self).spec_width(),
                    reflect_index(old(self).spec_height(), index.0 as int),
                    reflect_index(old(self).spec_width(), index.1 as int),
                ),
                *final(r),
            ),
    {
        let (row, col) = self.reflect(index);
        let i = self.offset(row, col);
        &mut self.buffer[i]
    }

    /// The element at a coordinate, or `None` when the coordinate, once reflected,
    /// lies outside the matrix.
    pub fn get_entry(&self, index: MatrixIndex) -> (r: Option<&T>)
        requires
            self.wf(),
        ensures
            match r {
                Some(x) => {
                    &&& self.valid_index(index@.0, index@.1)
                    &&& *x == self.entry(index@.0, index@.1)
                },
                None => !self.valid_index(index@.0, index@.1),
            },
    {
        let (row, col) = self.reflect((index.row(), index.col()));
        if row < 0 || row >= self.dimension.height() {
            None
        } else if col < 0 || col >= self.dimension.width() {
            None
        } else {
            Some(self.index((index.row(), index.col())))
        }
    }

    /// A mutable reference to the element at a coordinate, or `None` when the coordinate,
    /// once reflected, lies outside the matrix.
    pub fn get_entry_mut(&mut self, index: MatrixIndex) -> (r: Option<&mut T>)
        requires
            old(self).wf(),
        ensures
            final(self).shape() == old(self).shape(),
            match r {
                Some(x) => {
                    &&& old(self).valid_index(index@.0, index@.1)
                    &&& *x == old(self).entry(index@.0, index@.1)
                    &&& final(self)@ == old(self)@.update(
                        offset_of(
                            old(self).spec_width(),
                            reflect_index(old(self).spec_height(), index@.0),
                            reflect_index(old(self).spec_width(), index@.1),
                        ),
                        *final(x),
                    )
                },
                None => {
                    &&& !old(self).valid_index(index@.0, index@.1)
                    &&& final(self)@ == old(self)@
                },
            },
    {
        let (row, col) = self.reflect((index.row(), index.col()));
        if row < 0 || row >= self.dimension.height() {
            None
        } else if col < 0 || col >= self.dimension.width() {
            None
        } else {
            Some(self.index_mut((index.row(), index.col())))
        }
    }

    /// A view of a row, or `None` when the row index, once reflected, lies outside
    /// `[0, height)`.
    pub fn get_row(&self, index: RowIndex) -> (r: Option<MatrixRow<'_, T>>)
        requires
            self.wf(),
        ensures
            match r {
                Some(v) => {
                    &&& in_extent(self.spec_height(), index@)
                    &&& v.wf()
                    &&& v.matrix() == *self
                    &&& v.line() == reflect_index(self.spec_height(), index@)
                },
                None => !in_extent(self.spec_height(), index@),
            },
    {
        let row = self.reflect_row(index.value());
        if row < 0 || row >= self.dimension.height() {
            None
        } else {
            Some(MatrixRow::new(self, row))
        }
    }

    /// A view of a column, or `None` when the column index, once reflected, lies outside
    /// `[0, width)`.
    pub fn get_column(&self, index: ColumnIndex) -> (r: Option<MatrixColumn<'_, T>>)
        requires
            self.wf(),
        ensures
            match r {
                Some(v) => {
                    &&& in_extent(self.spec_width(), index@)
                    &&& v.wf()
                    &&& v.matrix() == *self
                    &&& v.line() == reflect_index(self.spec_width(), index@)
                },
                None => !in_extent(self.spec_width(), index@),
            },
    {
        let col = self.reflect_col(index.value());
        if col < 0 || col >= self.dimension.width() {
            None
        } else {
            Some(MatrixColumn::new(self, col))
        }
    }

    /// The elements in storage order, one per call of `next`.
    pub fn entries(&self) -> (r: MatrixEntries<'_, T>)
        ensures
            r.wf(),
            r.items() == self@,
    {
        let r = MatrixEntries { mat: self, pos: 0 };
        assert(r.items() =~= self@);
        r
    }

    /// A walk handing out a mutable reference to each element, in storage order.
    pub fn entries_mut(&mut self) -> (r: MatrixIterMut<'_, T>)
        requires
            old(self).wf(),
        ensures
            r.wf(),
            r.source() == old(self)@,
            r.source_shape() == old(self).shape(),
            r.offsets() == Seq::new(old(self)@.len(), |i: int| i),
    {
        let n = self.buffer.len();
        if n == 0 {
            let r = MatrixIterMut { mat: self, pos: 1, step: 1, end: 0 };
            assert(r.offsets() =~= Seq::new(0, |i: int| i));
            r
        } else {
            let r = MatrixIterMut::new(0, n - 1, self, 1);
            assert(r.offsets() =~= Seq::new(n as nat, |i: int| i));
            r
        }
    }

    /// The rows, from the first to the last.
    pub fn rows(&self) -> (r: RowsIter<'_, T>)
        requires
            self.wf(),
        ensures
            r.wf(),
            r.matrix() == *self,
            r.position() == 0,
    {
        RowsIter::new(self)
    }

    /// The columns, from the first to the last.
    pub fn columns(&self) -> (r: ColumnsIter<'_, T>)
        requires
            self.wf(),
        ensures
            r.wf(),
            r.matrix() == *self,
            r.position() == 0,
    {
        ColumnsIter::new(self)
    }
}

/// Checked lookup of a part of a matrix by an index of type `Idx`.
pub trait Get<'a, Idx> {
    type Output;

    /// The value's own invariant, which a lookup needs.
    spec fn well_formed(&self) -> bool;

    /// The part named by `index`, or `None` when `index` lies outside the value.
    fn get(&'a self, index: Idx) -> Option<Self::Output>
        requires
            self.well_formed(),
    ;
}

/// Checked mutable lookup of a part of a matrix by an index of type `Idx`.
pub trait GetMut<'a, Idx> {
    type Output;

    /// The value's own invariant, which a lookup needs.
    spec fn well_formed(&self) -> bool;

    /// The part named by `index`, or `None` when `index` lies outside the value.
    fn get_mut(&'a mut self, index: Idx) -> Option<Self::Output>
        requires
            old(self).well_formed(),
    ;
}

impl<'a, T: 'a> Get<'a, RowIndex> for MatrixContent<T> {
    type Output = MatrixRow<'a, T>;

    open spec fn well_formed(&self) -> bool {
        self.wf()
    }

    fn get(&'a self, index: RowIndex) -> (r: Option<MatrixRow<'a, T>>)
        ensures
            match r {
                Some(v) => {
                    &&& in_extent(self.spec_height(), index@)
                    &&& v.wf()
                    &&& v.matrix() == *self
                    &&& v.line() == reflect_index(self.spec_height(), index@)
                },
                None => !in_extent(self.spec_height(), index@),
            },
    {
        self.get_row(index)
    }
}

impl<'a, T: 'a> Get<'a, ColumnIndex> for MatrixContent<T> {
    type Output = MatrixColumn<'a, T>;

    open spec fn well_formed(&self) -> bool {
        self.wf()
    }

    fn get(&'a self, index: ColumnIndex) -> (r: Option<MatrixColumn<'a, T>>)
        ensures
            match r {
                Some(v) => {
                    &&& in_extent(self.spec_width(), index@)
                    &&& v.wf()
                    &&& v.matrix() == *self
                    &&& v.line() == reflect_index(self.spec_width(), index@)
                },
                None => !in_extent(self.spec_width(), index@),
            },
    {
        self.get_column(index)
    }
}

impl<'a, T: 'a> Get<'a, MatrixIndex> for MatrixContent<T> {
    type Output = &'a T;

    open spec fn well_formed(&self) -> bool {
        self.wf()
    }

    fn get(&'a self, index: MatrixIndex) -> (r: Option<&'a T>)
        ensures
            match r {
                Some(x) => {
                    &&& self.valid_index(index@.0, index@.1)
                    &&& *x == self.entry(index@.0, index@.1)
                },
                None => !self.valid_index(index@.0, index@.1),
            },
    {
        self.get_entry(index)
    }
}

impl<'a, T: 'a> GetMut<'a, MatrixIndex> for MatrixContent<T> {
    type Output = &'a mut T;

    open spec fn well_formed(&self) -> bool {
        self.wf()
    }

    fn get_mut(&'a mut self, index: MatrixIndex) -> (r: Option<&'a mut T>)
        ensures
            final(self).shape() == old(self).shape(),
            match r {
                Some(x) => {
                    &&& old(self).valid_index(index@.0, index@.1)
                    &&& *x == old(self).entry(index@.0, index@.1)
                    &&& final(self)@ == old(self)@.update(
                        offset_of(
                            old(self).spec_width(),
                            reflect_index(old(self).spec_height(), index@.0),
                            reflect_index(old(self).spec_width(), index@.1),
                        ),
                        *final(x),
                    )
                },
                None => {
                    &&& !old(self).valid_index(index@.0, index@.1)
                    &&& final(self)@ == old(self)@
                },
            },
    {
        self.get_entry_mut(index)
    }
}

/// A cursor over the buffer of a matrix: it yields the elements at offsets
/// `pos, pos + step, pos + 2 * step, ...` up to and including `end`.
#[derive(Clone)]
pub struct MatrixIter<'a, T> {
    mat: &'a MatrixContent<T>,
    pos: usize,
    step: usize,
    end: usize,
}

impl<'a, T> MatrixIter<'a, T> {
    /// The elements of the matrix walked, in storage order.
    pub closed spec fn source(&self) -> Seq<T> {
        self.mat@
    }

    /// `(pos, step, end)`.
    pub closed spec fn cursor(&self) -> (int, int, int) {
        (self.pos as int, self.step as int, self.end as int)
    }

    /// The step is positive, every offset still to be visited lies in the buffer,
    /// and advancing the cursor past `end` cannot overflow.
    pub open spec fn wf(&self) -> bool {
        let (pos, step, end) = self.cursor();
        &&& 0 < step
        &&& pos <= end ==> end < self.source().len()
        &&& pos <= end + step
        &&& end + step <= usize::MAX
    }

    /// How many elements are still to come.
    pub open spec fn remaining(&self) -> int {
        let (pos, step, end) = self.cursor();
        if pos <= end {
            (end - pos) / step + 1
        } else {
            0
        }
    }

    /// The elements still to come, in the order in which they are yielded.
    pub open spec fn items(&self) -> Seq<T> {
        let (pos, step, end) = self.cursor();
        Seq::new(self.remaining() as nat, |k: int| self.source()[pos + k * step])
    }

    /// Yields the next element of the walk, or `None` once the walk is over.
    pub fn next(&mut self) -> (r: Option<&'a T>)
        requires
            old(self).wf(),
        ensures
            final(self).wf(),
            final(self).source() == old(self).source(),
            match r {
                Some(x) => {
                    &&& old(self).cursor().0 <= old(self).cursor().2
                    &&& *x == old(self).source()[old(self).cursor().0]
                    &&& final(self).cursor() == (
                        old(self).cursor().0 + old(self).cursor().1,
                        old(self).cursor().1,
                        old(self).cursor().2,
                    )
                    &&& old(self).items().len() > 0
                    &&& *x == old(self).items()[0]
                    &&& final(self).items() == old(self).items().drop_first()
                },
                None => {
                    &&& old(self).cursor().0 > old(self).cursor().2
                    &&& final(self).cursor() == old(self).cursor()
                    &&& old(self).items().len() == 0
                    &&& final(self).items().len() == 0
                },
            },
    {
        if self.pos <= self.end {
            let ghost old_items = self.items();
            let ghost (pos, step, end) = self.cursor();
            proof {
                lemma_div_pos_is_pos(end - pos, step);
                assert(old_items[0] == self.source()[pos + 0 * step]);
            }
            let index = self.pos;
            self.pos = self.pos + self.step;
            proof {
                if pos + step <= end {
                    lemma_div_plus_one(end - pos - step, step);
                    assert(self.remaining() == old_items.len() - 1);
                    assert forall|k: int| 0 <= k < self.items().len() implies self.items()[k]
                        == old_items.drop_first()[k] by {
                        assert(pos + step + k * step == pos + (k + 1) * step) by (nonlinear_arith);
                    }
                } else {
                    lemma_basic_div(end - pos, step);
                }
                assert(self.items() =~= old_items.drop_first());
            }
            Some(&self.mat.buffer[index])
        } else {
            None
        }
    }
}

/// A cursor that hands out, one step at a time, a mutable reference to the elements at
/// offsets `pos, pos + step, ...` up to and including `end`. Each reference lives until
/// the next step only, so no two of them are ever held at once.
pub struct MatrixIterMut<'a, T> {
    mat: &'a mut MatrixContent<T>,
    pos: usize,
    step: usize,
    end: usize,
}

impl<'a, T> MatrixIterMut<'a, T> {
    /// The elements of the matrix walked, in storage order, as they stand now.
    pub closed spec fn source(&self) -> Seq<T> {
        self.mat@
    }

    /// The shape of the matrix walked.
    pub closed spec fn source_shape(&self) -> (int, int) {
        self.mat.shape()
    }

    /// `(pos, step, end)`.
    pub closed spec fn cursor(&self) -> (int, int, int) {
        (self.pos as int, self.step as int, self.end as int)
    }

    /// The step is positive, every offset still to be visited lies in the buffer,
    /// and advancing the cursor past `end` cannot overflow.
    pub open spec fn wf(&self) -> bool {
        let (pos, step, end) = self.cursor();
        &&& 0 < step
        &&& pos <= end ==> end < self.source().len()
        &&& pos <= end + step
        &&& end + step <= usize::MAX
    }

    /// The offsets still to be visited, in order.
    pub open spec fn offsets(&self) -> Seq<int> {
        let (pos, step, end) = self.cursor();
        let n = if pos <= end {
            (end - pos) / step + 1
        } else {
            0
        };
        Seq::new(n as nat, |k: int| pos + k * step)
    }

    /// A walk over the offsets `start, start + step, ...` up to and including `end`.
    pub fn new(start: usize, end: usize, mat: &'a mut MatrixContent<T>, step: usize) -> (r: Self)
        requires
            start <= end,
            0 < step,
            end < old(mat)@.len(),
            end + step <= usize::MAX,
        ensures
            r.wf(),
            r.source() == old(mat)@,
            r.source_shape() == old(mat).shape(),
            r.cursor() == (start as int, step as int, end as int),
    {
        MatrixIterMut { mat, pos: start, step, end }
    }

    /// A mutable reference to the element at the next offset, or `None` once the walk
    /// is over.
    pub fn next(&mut self) -> (r: Option<&mut T>)
        requires
            old(self).wf(),
        ensures
            final(self).source_shape() == old(self).source_shape(),
            match r {
                Some(x) => {
                    &&& old(self).cursor().0 <= old(self).cursor().2
                    &&& final(self).cursor() == (
                        old(self).cursor().0 + old(self).cursor().1,
                        old(self).cursor().1,
                        old(self).cursor().2,
                    )
                    &&& old(self).offsets().len() > 0
                    &&& *x == old(self).source()[old(self).offsets()[0]]
                    &&& final(self).source() == old(self).source().update(
                        old(self).offsets()[0],
                        *final(x),
                    )
                    &&& final(self).offsets() == old(self).offsets().drop_first()
                    &&& final(self).wf()
                },
                None => {
                    &&& old(self).cursor().0 > old(self).cursor().2
                    &&& final(self).cursor() == old(self).cursor()
                    &&& old(self).offsets().len() == 0
                    &&& final(self).source() == old(self).source()
                    &&& final(self).offsets().len() == 0
                    &&& final(self).wf()
                },
            },
    {
        if self.pos <= self.end {
            let ghost old_offsets = self.offsets();
            let ghost (pos, step, end) = self.cursor();
            proof {
                lemma_div_pos_is_pos(end - pos, step);
            }
            let index = self.pos;
            self.pos = self.pos + self.step;
            proof {
                if pos + step <= end {
                    lemma_div_plus_one(end - pos - step, step);
                    assert forall|k: int| 0 <= k < self.offsets().len() implies self.offsets()[k]
                        == old_offsets.drop_first()[k] by {
                        assert(pos + step + k * step == pos + (k + 1) * step) by (nonlinear_arith);
                    }
                } else {
                    lemma_basic_div(end - pos, step);
                }
                assert(self.offsets() =~= old_offsets.drop_first());
            }
            Some(&mut self.mat.buffer[index])
        } else {
            None
        }
    }
}

/// A cursor over every element of a matrix, in storage order.
pub struct MatrixEntries<'a, T> {
    mat: &'a MatrixContent<T>,
    pos: usize,
}

impl<'a, T> MatrixEntries<'a, T> {
    /// The cursor has not run past the end of the buffer.
    pub closed spec fn wf(&self) -> bool {
        self.pos <= self.mat@.len()
    }

    /// The elements still to come, in the order in which they are yielded.
    pub closed spec fn items(&self) -> Seq<T> {
        self.mat@.subrange(self.pos as int, self.mat@.len() as int)
    }

    /// Yields the next element, or `None` once every element was yielded.
    pub fn next(&mut self) -> (r: Option<&'a T>)
        requires
            old(self).wf(),
        ensures
            final(self).wf(),
            match r {
                Some(x) => {
                    &&& old(self).items().len() > 0
                    &&& *x == old(self).items()[0]
                    &&& final(self).items() == old(self).items().drop_first()
                },
                None => old(self).items().len() == 0 && final(self).items().len() == 0,
            },
    {
        if self.pos < self.mat.buffer.len() {
            let pos = self.pos;
            self.pos = self.pos + 1;
            assert(self.items() =~= old(self).items().drop_first());
            Some(&self.mat.buffer[pos])
        } else {
            None
        }
    }
}

} // verus!
