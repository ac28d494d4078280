use vstd::prelude::*;

use super::{Matrix, MatrixContent};

verus! {

/// Every element times `k` fits an `i64`.
pub open spec fn scale_fits(s: Seq<i64>, k: int) -> bool {
    forall|i: int| 0 <= i < s.len() ==> i64::MIN <= #[trigger] s[i] * k <= i64::MAX
}

/// Every element times `k`.
pub open spec fn scaled(s: Seq<i64>, k: int) -> Seq<i64> {
    Seq::new(s.len(), |i: int| (s[i] * k) as i64)
}

/// Every sum of two elements at the same position fits an `i64`.
pub open spec fn sum_fits(a: Seq<i64>, b: Seq<i64>) -> bool {
    forall|i: int| 0 <= i < a.len() ==> i64::MIN <= #[trigger] a[i] + b[i] <= i64::MAX
}

/// The sums of the elements at the same positions.
pub open spec fn summed(a: Seq<i64>, b: Seq<i64>) -> Seq<i64> {
    Seq::new(a.len(), |i: int| (a[i] + b[i]) as i64)
}

/// Multiplying by zero gives zero everywhere.
pub proof fn lemma_scale_by_zero(s: Seq<i64>)
    ensures
        scale_fits(s, 0),
        scaled(s, 0) == Seq::new(s.len(), |i: int| 0i64),
{
    assert(scaled(s, 0) =~= Seq::new(s.len(), |i: int| 0i64));
}

/// Multiplying by `a` and then by `b` is multiplying once by `a * b`.
pub proof fn lemma_scale_twice(s: Seq<i64>, a: int, b: int)
    requires
        scale_fits(s, a),
        scale_fits(scaled(s, a), b),
    ensures
        scale_fits(s, a * b),
        scaled(scaled(s, a), b) == scaled(s, a * b),
{
    assert forall|i: int| 0 <= i < s.len() implies #[trigger] (s[i] * (a * b)) == (s[i] * a) * b by {
        assert(s[i] * (a * b) == (s[i] * a) * b) by (nonlinear_arith);
    }
    assert forall|i: int| 0 <= i < s.len() implies i64::MIN <= #[trigger] s[i] * (a * b)
        <= i64::MAX by {
        assert(scaled(s, a)[i] * b == (s[i] * a) * b);
    }
    assert(scaled(scaled(s, a), b) =~= scaled(s, a * b));
}

/// Elementwise addition does not depend on the order of its operands.
pub proof fn lemma_sum_commutes(a: Seq<i64>, b: Seq<i64>)
    requires
        a.len() == b.len(),
    ensures
        sum_fits(a, b) == sum_fits(b, a),
        summed(a, b) == summed(b, a),
{
    assert(summed(a, b) =~= summed(b, a));
}

/// Adding a sequence to itself is multiplying it by two.
pub proof fn lemma_sum_self_is_double(s: Seq<i64>)
    ensures
        sum_fits(s, s) == scale_fits(s, 2),
        summed(s, s) == scaled(s, 2),
{
    assert(summed(s, s) =~= scaled(s, 2));
}

impl MatrixContent<i64> {
    /// Multiplies every element by `rhs`, in place.
    pub fn mul_assign(&mut self, rhs: i64)
        requires
            old(self).wf(),
            scale_fits(old(self)@, rhs as int),
        ensures
            final(self).wf(),
            final(self).shape() == old(self).shape(),
            final(self)@ == scaled(old(self)@, rhs as int),
    {
        let n = self.buffer.len();
        let mut i: usize = 0;
        while i < n
            invariant
                n == old(self)@.len(),
                self.dimension == old(self).dimension,
                self.buffer@.len() == n,
                forall|j: int| 0 <= j < i ==> #[trigger] self.buffer@[j] == (old(self)@[j] * rhs) as i64,
                forall|j: int| i <= j < n ==> #[trigger] self.buffer@[j] == old(self)@[j],
                scale_fits(old(self)@, rhs as int),
            decreases n - i,
        {
            let v = self.buffer[i] * rhs;
            self.buffer.set(i, v);
            i = i + 1;
        }
        assert(self@ =~= scaled(old(self)@, rhs as int));
    }

    /// The matrix with every element multiplied by `rhs`.
    pub fn mul(self, rhs: i64) -> (r: Self)
        requires
            self.wf(),
            scale_fits(self@, rhs as int),
        ensures
            r.wf(),
            r.shape() == self.shape(),
            r@ == scaled(self@, rhs as int),
    {
        let mut r = self;
        r.mul_assign(rhs);
        r
    }

    /// The elementwise sum of two matrices of one shape.
    pub fn add(&self, rhs: &Self) -> (r: Self)
        requires
            self.wf(),
            rhs.wf(),
            self.shape() == rhs.shape(),
            sum_fits(self@, rhs@),
        ensures
            r.wf(),
            r.shape() == self.shape(),
            r@ == summed(self@, rhs@),
    {
        let n = self.buffer.len();
        let mut buffer: Vec<i64> = Vec::with_capacity(n);
        let mut i: usize = 0;
        while i < n
            invariant
                n == self@.len(),
                n == rhs@.len(),
                sum_fits(self@, rhs@),
                i <= n,
                buffer@.len() == i,
                forall|j: int| 0 <= j < i ==> #[trigger] buffer@[j] == (self@[j] + rhs@[j]) as i64,
            decreases n - i,
        {
            buffer.push(self.buffer[i] + rhs.buffer[i]);
            i = i + 1;
        }
        assert(buffer@ =~= summed(self@, rhs@));
        MatrixContent { dimension: self.dimension, buffer }
    }

    /// The elementwise sum of two matrices, or `None` when their shapes differ.
    pub fn add_checked(&self, rhs: &Self) -> (r: Option<Self>)
        requires
            self.wf(),
            rhs.wf(),
            self.shape() == rhs.shape() ==> sum_fits(self@, rhs@),
        ensures
            match r {
                Some(m) => {
                    &&& self.shape() == rhs.shape()
                    &&& m.wf()
                    &&& m.shape() == self.shape()
                    &&& m@ == summed(self@, rhs@)
                },
                None => self.shape() != rhs.shape(),
            },
    {
        if self.width() != rhs.width() || self.height() != rhs.height() {
            None
        } else {
            Some(self.add(rhs))
        }
    }
}

impl Matrix<i64> {
    /// Multiplies every element by `rhs`, in place.
    pub fn mul_assign(&mut self, rhs: i64)
        requires
            old(self).wf(),
            scale_fits(old(self).content@, rhs as int),
        ensures
            final(self).wf(),
            final(self).content.shape() == old(self).content.shape(),
            final(self).content@ == scaled(old(self).content@, rhs as int),
    {
        self.content.mul_assign(rhs)
    }

    /// The matrix with every element multiplied by `rhs`.
    pub fn mul(self, rhs: i64) -> (r: Self)
        requires
            self.wf(),
            scale_fits(self.content@, rhs as int),
        ensures
            r.wf(),
            r.content.shape() == self.content.shape(),
            r.content@ == scaled(self.content@, rhs as int),
    {
        Matrix { content: self.content.mul(rhs) }
    }

    /// The elementwise sum of two matrices of one shape.
    pub fn add(&self, rhs: &Self) -> (r: Self)
        requires
            self.wf(),
            rhs.wf(),
            self.content.shape() == rhs.content.shape(),
            sum_fits(self.content@, rhs.content@),
        ensures
            r.wf(),
            r.content.shape() == self.content.shape(),
            r.content@ == summed(self.content@, rhs.content@),
    {
        Matrix { content: self.content.add(&rhs.content) }
    }

    /// The elementwise sum of two matrices, or `None` when their shapes differ.
    pub fn add_checked(&self, rhs: &Self) -> (r: Option<Self>)
        requires
            self.wf(),
            rhs.wf(),
            self.content.shape() == rhs.content.shape() ==> sum_fits(
                self.content@,
                rhs.content@,
            ),
        ensures
            match r {
                Some(m) => {
                    &&& self.content.shape() == rhs.content.shape()
                    &&& m.wf()
                    &&& m.content.shape() == self.content.shape()
                    &&& m.content@ == summed(self.content@, rhs.content@)
                },
                None => self.content.shape() != rhs.content.shape(),
            },
    {
        match self.content.add_checked(&rhs.content) {
            Some(content) => Some(Matrix { content }),
            None => None,
        }
    }
}

} // verus!
