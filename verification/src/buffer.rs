//! The character grid: a fixed-size, row-major buffer of cells with
//! bounds-checked writes and a full-clear operation.

use vstd::prelude::*;

use crate::error::Error;

verus! {

/// What one bounds-checked cell write does to a row-major grid of
/// dimensions `w` by `h`: the cell at `(x, y)` becomes `c` when the
/// coordinates are in bounds, and a `PositionError` carrying the
/// coordinates and the bounds is raised otherwise.
pub open spec fn cell_write(
    g: Seq<char>,
    w: int,
    h: int,
    x: int,
    y: int,
    c: char,
) -> Result<Seq<char>, Error> {
    if x < w && y < h {
        Ok(g.update(y * w + x, c))
    } else {
        Err(
            Error::PositionError {
                x: x as usize,
                y: y as usize,
                width: w as usize,
                height: h as usize,
            },
        )
    }
}

/// A fixed-size two-dimensional character buffer, stored row-major:
/// the cell at `(x, y)` lives at index `y * width + x`.
pub struct Buffer {
    width: usize,
    height: usize,
    inner: Vec<char>,
}

impl View for Buffer {
    type V = Seq<char>;

    closed spec fn view(&self) -> Seq<char> {
        self.inner@
    }
}

impl Buffer {
    pub closed spec fn width(&self) -> usize {
        self.width
    }

    pub closed spec fn height(&self) -> usize {
        self.height
    }

    /// The buffer holds exactly `width * height` cells, and both
    /// dimensions are positive.
    pub open spec fn wf(&self) -> bool {
        &&& self@.len() == self.width() * self.height()
        &&& self@.len() <= usize::MAX
        &&& 1 <= self.width()
        &&& 1 <= self.height()
    }

    /// A new buffer of the given dimensions, every cell a space.
    pub fn new(width: usize, height: usize) -> (r: Buffer)
        requires
            1 <= width,
            1 <= height,
            width * height <= usize::MAX,
        ensures
            r.wf(),
            r.width() == width,
            r.height() == height,
            r@.len() == width * height,
            forall|i: int| 0 <= i < r@.len() ==> r@[i] == ' ',
    {
        let total: usize = width * height;
        let mut inner: Vec<char> = Vec::new();
        let mut i: usize = 0;
        while i < total
            invariant
                i <= total,
                inner@.len() == i,
                forall|j: int| 0 <= j < i ==> inner@[j] == ' ',
            decreases total - i,
        {
            inner.push(' ');
            i = i + 1;
        }
        Buffer { width, height, inner }
    }

    /// Reset every cell to a space; dimensions are unchanged.
    pub fn clear(&mut self)
        requires
            old(self).wf(),
        ensures
            final(self).wf(),
            final(self).width() == old(self).width(),
            final(self).height() == old(self).height(),
            final(self)@.len() == old(self)@.len(),
            forall|i: int| 0 <= i < final(self)@.len() ==> final(self)@[i] == ' ',
    {
        let n = self.inner.len();
        let mut i: usize = 0;
        while i < n
            invariant
                i <= n,
                self.inner@.len() == n,
                self.width == old(self).width,
                self.height == old(self).height,
                self.wf(),
                forall|j: int| 0 <= j < i ==> self.inner@[j] == ' ',
            decreases n - i,
        {
            if self.inner[i] != ' ' {
                self.inner[i] = ' ';
            }
            i = i + 1;
        }
    }

    /// Write `c` at `(x, y)`: exactly `cell_write` on the grid contents.
    /// A write of the character already present succeeds and leaves the
    /// grid value unchanged.
    pub fn draw_char(&mut self, x: usize, y: usize, c: char) -> (r: Result<(), Error>)
        requires
            old(self).wf(),
        ensures
            final(self).wf(),
            final(self).width() == old(self).width(),
            final(self).height() == old(self).height(),
            match cell_write(
                old(self)@,
                old(self).width() as int,
                old(self).height() as int,
                x as int,
                y as int,
                c,
            ) {
                Ok(g) => r == Ok::<(), Error>(()) && final(self)@ == g,
                Err(e) => r == Err::<(), Error>(e) && final(self)@ == old(self)@,
            },
    {
        if x >= self.width || y >= self.height {
            return Err(
                Error::PositionError { x, y, width: self.width, height: self.height },
            );
        }
        proof {
            assert((y as int) * (self.width as int) + (x as int) < (self.width as int) * (
            self.height as int)) by (nonlinear_arith)
                requires
                    x < self.width,
                    y < self.height,
            ;
        }
        let index: usize = y * self.width + x;
        if self.inner[index] != c {
            self.inner[index] = c;
        } else {
            proof {
                assert(self.inner@.update(index as int, c) =~= self.inner@);
            }
        }
        Ok(())
    }

    /// A fresh cursor over the cells in row-major order.
    pub fn iter(&self) -> (it: BufferIter<'_>)
        ensures
            it.pos() == 0,
            it.contents() == self@,
    {
        BufferIter { index: 0, inner: &self.inner }
    }

    /// A copy of the raw cell contents, row-major.
    pub fn get_content(&self) -> (r: Vec<char>)
        ensures
            r@ == self@,
    {
        let n = self.inner.len();
        let mut out: Vec<char> = Vec::new();
        let mut i: usize = 0;
        while i < n
            invariant
                i <= n,
                n == self.inner@.len(),
                out@ == self.inner@.take(i as int),
            decreases n - i,
        {
            out.push(self.inner[i]);
            proof {
                assert(out@ =~= self.inner@.take(i + 1 as int));
            }
            i = i + 1;
        }
        proof {
            assert(self.inner@.take(n as int) =~= self.inner@);
        }
        out
    }
}

/// A read-only cursor over a buffer's cells in row-major order.
pub struct BufferIter<'a> {
    index: usize,
    inner: &'a Vec<char>,
}

impl<'a> BufferIter<'a> {
    pub closed spec fn pos(&self) -> int {
        self.index as int
    }

    pub closed spec fn contents(&self) -> Seq<char> {
        self.inner@
    }

    /// The next cell, or `None` once every cell has been handed out.
    pub fn next(&mut self) -> (r: Option<char>)
        ensures
            final(self).contents() == old(self).contents(),
            if old(self).pos() < old(self).contents().len() {
                &&& r == Some(old(self).contents()[old(self).pos()])
                &&& final(self).pos() == old(self).pos() + 1
            } else {
                &&& r is None
                &&& final(self).pos() == old(self).pos()
            },
    {
        if self.index < self.inner.len() {
            let c = self.inner[self.index];
            self.index = self.index + 1;
            Some(c)
        } else {
            None
        }
    }
}

} // verus!
