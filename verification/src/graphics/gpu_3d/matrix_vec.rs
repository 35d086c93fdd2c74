use vstd::prelude::*;

verus! {

/// A 4x4 matrix of 20.12 fixed point numbers, row by row.
pub type Matrix = [i32; 16];

/// A stack of matrices, kept in a vector.
pub struct MatrixVec(pub Vec<Matrix>);

impl MatrixVec {
    /// The matrices, bottom first.
    pub open spec fn view(&self) -> Seq<Matrix> {
        self.0@
    }

    /// No matrices.
    pub fn new() -> (r: Self)
        ensures
            r.view() == Seq::<Matrix>::empty(),
    {
        MatrixVec(Vec::new())
    }

    /// Adds a zero matrix on top, to be filled in place; the result is its
    /// position.
    pub fn push_empty(&mut self) -> (r: usize)
        ensures
            final(self).view().len() == old(self).view().len() + 1,
            final(self).view().drop_last() == old(self).view(),
            final(self).view().last()@ == Seq::new(16, |i: int| 0i32),
            r == old(self).view().len(),
    {
        let r = self.0.len();
        let zero: Matrix = [0i32; 16];
        assert(zero@ =~= Seq::new(16, |i: int| 0i32));
        self.0.push(zero);
        assert(self.0@.drop_last() =~= old(self).0@);
        r
    }

    /// Adds a copy of `mat` on top.
    pub fn push(&mut self, mat: &Matrix)
        ensures
            final(self).view() == old(self).view().push(*mat),
    {
        self.0.push(*mat);
    }

    /// The top matrix, if any.
    pub fn last(&self) -> (r: Option<&Matrix>)
        ensures
            r == if self.view().len() == 0 {
                None::<&Matrix>
            } else {
                Some(&self.view().last())
            },
    {
        if self.0.len() == 0 {
            None
        } else {
            Some(&self.0[self.0.len() - 1])
        }
    }

    /// Number of matrices.
    pub fn len(&self) -> (r: usize)
        ensures
            r == self.view().len(),
    {
        self.0.len()
    }

    /// Removes every matrix.
    pub fn clear(&mut self)
        ensures
            final(self).view() == Seq::<Matrix>::empty(),
    {
        self.0.clear();
    }

    /// The matrix at position `index`.
    pub fn get(&self, index: usize) -> (r: &Matrix)
        requires
            index < self.view().len(),
        ensures
            *r == self.view()[index as int],
    {
        &self.0[index]
    }

    /// Replaces the matrix at position `index`.
    pub fn set(&mut self, index: usize, mat: Matrix)
        requires
            index < old(self).view().len(),
        ensures
            final(self).view() == old(self).view().update(index as int, mat),
    {
        self.0.set(index, mat);
    }
}

} // verus!
