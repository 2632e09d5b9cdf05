//! The leaf element: a string drawn left-to-right from its position.

use vstd::prelude::*;
use vstd::string::StrSliceExecFns;

use crate::buffer::{cell_write, Buffer};
use crate::error::Error;

verus! {

/// What drawing the characters `s` does to a grid of dimensions `w` by `h`,
/// starting at `(x, y)` and advancing one column per character: each cell
/// write is a `cell_write`, and the first out-of-bounds write aborts the
/// rest with its error.
pub open spec fn text_written(
    g: Seq<char>,
    w: int,
    h: int,
    x: int,
    y: int,
    s: Seq<char>,
) -> Result<Seq<char>, Error>
    decreases s.len(),
{
    if s.len() == 0 {
        Ok(g)
    } else {
        match cell_write(g, w, h, x, y, s[0]) {
            Ok(g1) => text_written(g1, w, h, x + 1, y, s.subrange(1, s.len() as int)),
            Err(e) => Err(e),
        }
    }
}

/// A text element: a content string anchored at an absolute position.
pub struct Text {
    pub x: usize,
    pub y: usize,
    pub content: String,
}

impl Text {
    pub fn new(x: usize, y: usize, content: &str) -> (r: Text)
        ensures
            r.x == x,
            r.y == y,
            r.content@ == content@,
    {
        Text { x, y, content: content.to_owned() }
    }

    /// Replace the content; position is unchanged.
    pub fn set_content(&mut self, content: &str)
        ensures
            final(self).x == old(self).x,
            final(self).y == old(self).y,
            final(self).content@ == content@,
    {
        self.content = content.to_owned();
    }

    /// Move the text to `(x, y)`; the content is unchanged.
    pub fn set_position(&mut self, x: usize, y: usize)
        ensures
            final(self).x == x,
            final(self).y == y,
            final(self).content == old(self).content,
    {
        self.x = x;
        self.y = y;
    }

    /// Draw the content into the buffer: exactly `text_written` on the
    /// grid. Writes before the first failing one remain in the buffer.
    pub fn draw(&self, buffer: &mut Buffer) -> (r: Result<(), Error>)
        requires
            old(buffer).wf(),
        ensures
            final(buffer).wf(),
            final(buffer).width() == old(buffer).width(),
            final(buffer).height() == old(buffer).height(),
            match text_written(
                old(buffer)@,
                old(buffer).width() as int,
                old(buffer).height() as int,
                self.x as int,
                self.y as int,
                self.content@,
            ) {
                Ok(g) => r == Ok::<(), Error>(()) && final(buffer)@ == g,
                Err(e) => r == Err::<(), Error>(e),
            },
    {
        let n = self.content.as_str().unicode_len();
        proof {
            assert(self.content@.subrange(0, n as int) =~= self.content@);
        }
        let mut i: usize = 0;
        while i < n
            invariant
                buffer.wf(),
                buffer.width() == old(buffer).width(),
                buffer.height() == old(buffer).height(),
                i <= n,
                n == self.content@.len(),
                i > 0 ==> self.x + i <= buffer.width(),
                text_written(
                    old(buffer)@,
                    old(buffer).width() as int,
                    old(buffer).height() as int,
                    self.x as int,
                    self.y as int,
                    self.content@,
                ) == text_written(
                    buffer@,
                    buffer.width() as int,
                    buffer.height() as int,
                    self.x + i,
                    self.y as int,
                    self.content@.subrange(i as int, n as int),
                ),
            decreases n - i,
        {
            let c = self.content.as_str().get_char(i);
            let cx = self.x + i;
            let ghost rest = self.content@.subrange(i as int, n as int);
            proof {
                assert(rest[0] == self.content@[i as int]);
                assert(rest.subrange(1, rest.len() as int) =~= self.content@.subrange(
                    i + 1 as int,
                    n as int,
                ));
            }
            match buffer.draw_char(cx, self.y, c) {
                Ok(()) => {
                }
                Err(e) => {
                    return Err(e);
                }
            }
            i = i + 1;
        }
        proof {
            assert(self.content@.subrange(n as int, n as int).len() == 0);
        }
        Ok(())
    }
}

} // verus!
